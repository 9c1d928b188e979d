use dupwork::{
    Context, ContractError, Dupwork, ExtDupwork, PromiseStatus, UserType, WrappedUserType,
    MAXIMUM_PRICE_PER_TASK, MINIMUM_PRICE_PER_TASK, REGISTER_BOND, SUBMIT_BOND,
};

const CONTRACT: &str = "dwork.testnet";
const PRICE: u128 = 1_000_000_000_000_000_000_000_000; // 1 NEAR

fn ctx(caller: &str, deposit: u128, timestamp: u64, block_index: u64) -> Context {
    Context {
        predecessor_account_id: caller.to_string(),
        current_account_id: CONTRACT.to_string(),
        attached_deposit: deposit,
        block_timestamp: timestamp,
        block_index,
    }
}

/// A marketplace with a requester `alice.testnet`, a worker `bob.testnet`
/// and a category `web_dev`.
fn setup() -> Dupwork {
    let mut c = Dupwork::new();
    c.register(&ctx("alice.testnet", REGISTER_BOND, 1, 1), true).unwrap();
    c.register(&ctx("bob.testnet", REGISTER_BOND, 1, 1), false).unwrap();
    assert_eq!(c.new_category(&ctx("alice.testnet", 0, 7, 1), "Web Dev".to_string()), Ok(true));
    c
}

/// `alice.testnet` posts a task for two participants at block 10.
fn post_task(c: &mut Dupwork) -> String {
    c.new_task(
        &ctx("alice.testnet", 2 * PRICE, 100, 10),
        "Retweet".to_string(),
        "Retweet this post".to_string(),
        PRICE,
        2,
        1000,
        "web_dev".to_string(),
    )
    .unwrap();
    "alice.testnet_10".to_string()
}

fn self_ctx() -> Context {
    ctx(CONTRACT, 0, 200, 20)
}

#[test]
fn register_creates_member_record() {
    let c = setup();
    let info = c.user_info("alice.testnet".to_string()).unwrap();
    assert_eq!(info.account_id, "alice.testnet");
    assert_eq!(info.bio, "A member of dWork");
    assert_eq!(info.user_type, UserType::Requester { total_transfered: 0, current_requests: 0 });
    assert!(info.completed_jobs.is_empty());
    let bob = c.user_info("bob.testnet".to_string()).unwrap();
    assert_eq!(bob.user_type, UserType::Worker { total_received: 0, current_applies: 0 });
}

#[test]
fn register_needs_exact_bond() {
    let mut c = Dupwork::new();
    assert_eq!(
        c.register(&ctx("alice.testnet", REGISTER_BOND - 1, 1, 1), true),
        Err(ContractError::RegisterBondMismatch)
    );
    assert_eq!(
        c.user_info("alice.testnet".to_string()).err(),
        Some(ContractError::UserNotFound)
    );
}

#[test]
fn register_refuses_invalid_account() {
    let mut c = Dupwork::new();
    for bad in ["Alice", "a", "-alice", "alice-", "al..ice", "alicé"] {
        assert_eq!(
            c.register(&ctx(bad, REGISTER_BOND, 1, 1), true),
            Err(ContractError::InvalidAccountId)
        );
    }
    for good in ["aa", "a-b_c.d", "100", "alice.testnet"] {
        assert_eq!(c.register(&ctx(good, REGISTER_BOND, 1, 1), false), Ok(()));
    }
}

#[test]
fn leave_returns_bond_and_forgets_member() {
    let mut c = setup();
    let t = c.leave(&ctx("bob.testnet", 0, 2, 2)).unwrap();
    assert_eq!(t.receiver_id, "bob.testnet");
    assert_eq!(t.amount, REGISTER_BOND);
    assert_eq!(c.user_info("bob.testnet".to_string()).err(), Some(ContractError::UserNotFound));
    assert_eq!(c.leave(&ctx("bob.testnet", 0, 2, 2)).err(), Some(ContractError::NotMember));
}

#[test]
fn update_bio_changes_bio() {
    let mut c = setup();
    c.update_bio(&ctx("bob.testnet", 0, 2, 2), "Rust developer".to_string()).unwrap();
    assert_eq!(c.user_info("bob.testnet".to_string()).unwrap().bio, "Rust developer");
    assert_eq!(
        c.update_bio(&ctx("carol.testnet", 0, 2, 2), "x".to_string()),
        Err(ContractError::UserNotFound)
    );
}

#[test]
fn new_category_identifier_is_lowercase_with_underscores() {
    let c = setup();
    let cats = c.categories(0, 10).unwrap();
    assert_eq!(cats.len(), 1);
    assert_eq!(cats[0].id(), "web_dev");
    assert_eq!(cats[0].name(), "Web Dev");
    assert_eq!(cats[0].created(), 7);
    assert_eq!(cats[0].num_posts(), 0);
}

#[test]
fn new_category_refuses_duplicate_and_long_name() {
    let mut c = setup();
    assert_eq!(
        c.new_category(&ctx("bob.testnet", 0, 8, 2), "WEB dev".to_string()),
        Err(ContractError::CategoryExists)
    );
    assert_eq!(
        c.new_category(&ctx("bob.testnet", 0, 8, 2), "x".repeat(101)),
        Err(ContractError::TitleTooLong)
    );
    assert_eq!(c.new_category(&ctx("bob.testnet", 0, 8, 2), "x".repeat(100)), Ok(true));
}

#[test]
fn categories_page_by_position() {
    let mut c = setup();
    c.new_category(&ctx("bob.testnet", 0, 8, 2), "Design".to_string()).unwrap();
    c.new_category(&ctx("bob.testnet", 0, 9, 3), "Writing".to_string()).unwrap();
    let page = c.categories(1, 5).unwrap();
    let ids: Vec<&str> = page.iter().map(|c| c.id().as_str()).collect();
    assert_eq!(ids, vec!["design", "writing"]);
    assert!(c.categories(5, 5).unwrap().is_empty());
    assert_eq!(c.categories(u64::MAX, 1).err(), Some(ContractError::ArithmeticOverflow));
}

#[test]
fn new_task_is_stored_under_owner_and_block() {
    let mut c = setup();
    let id = post_task(&mut c);
    let t = c.task_by_id(id.clone()).unwrap();
    assert_eq!(t.owner, "alice.testnet");
    assert_eq!(t.title, "Retweet");
    assert_eq!(t.price, PRICE);
    assert_eq!(t.max_participants, 2);
    assert_eq!(t.created_at, 100);
    assert_eq!(t.available_until, 1100);
    assert_eq!(t.category_id, "web_dev");
    assert!(t.proposals.is_empty());
    let info = c.user_info("alice.testnet".to_string()).unwrap();
    assert_eq!(info.user_type, UserType::Requester { total_transfered: 0, current_requests: 1 });
    assert_eq!(c.categories(0, 1).unwrap()[0].num_posts(), 1);
    let current = c.current_tasks("alice.testnet".to_string(), 0, 10).unwrap();
    assert_eq!(current.len(), 1);
    assert_eq!(current[0].0, id);
}

#[test]
fn task_identifier_uses_decimal_block_index() {
    let mut c = setup();
    c.new_task(
        &ctx("alice.testnet", PRICE, 100, 1234567890),
        "t".to_string(),
        "d".to_string(),
        PRICE,
        1,
        10,
        "web_dev".to_string(),
    )
    .unwrap();
    assert!(c.task_by_id("alice.testnet_1234567890".to_string()).is_ok());
    c.new_task(
        &ctx("alice.testnet", PRICE, 100, 0),
        "t".to_string(),
        "d".to_string(),
        PRICE,
        1,
        10,
        "web_dev".to_string(),
    )
    .unwrap();
    assert!(c.task_by_id("alice.testnet_0".to_string()).is_ok());
}

#[test]
fn one_task_per_block() {
    let mut c = setup();
    post_task(&mut c);
    let r = c.new_task(
        &ctx("alice.testnet", 2 * PRICE, 100, 10),
        "Other".to_string(),
        "Other".to_string(),
        PRICE,
        2,
        1000,
        "web_dev".to_string(),
    );
    assert_eq!(r, Err(ContractError::DuplicateTaskInBlock));
}

#[test]
fn new_task_refusals() {
    let mut c = setup();
    let mk = |c: &mut Dupwork, caller: &str, deposit: u128, price: u128, max: u16, desc: String, cat: &str| {
        c.new_task(&ctx(caller, deposit, 100, 10), "t".to_string(), desc, price, max, 10, cat.to_string())
    };
    assert_eq!(mk(&mut c, "carol.testnet", PRICE, PRICE, 1, "d".into(), "web_dev"), Err(ContractError::NotMember));
    assert_eq!(mk(&mut c, "alice.testnet", PRICE, u128::MAX, 2, "d".into(), "web_dev"), Err(ContractError::TotalAmountOverflow));
    assert_eq!(mk(&mut c, "alice.testnet", PRICE, PRICE, 2, "d".into(), "web_dev"), Err(ContractError::DepositMismatch));
    assert_eq!(mk(&mut c, "alice.testnet", 1, 1, 1, "d".into(), "web_dev"), Err(ContractError::TotalAmountOutOfRange));
    assert_eq!(
        mk(&mut c, "alice.testnet", MAXIMUM_PRICE_PER_TASK + 1, MAXIMUM_PRICE_PER_TASK + 1, 1, "d".into(), "web_dev"),
        Err(ContractError::TotalAmountOutOfRange)
    );
    assert_eq!(mk(&mut c, "bob.testnet", PRICE, PRICE, 1, "d".into(), "web_dev"), Err(ContractError::OnlyRequester));
    assert_eq!(mk(&mut c, "alice.testnet", PRICE, PRICE, 1, "x".repeat(10001), "web_dev"), Err(ContractError::DescriptionTooLong));
    assert_eq!(
        mk(&mut c, "alice.testnet", 201 * MINIMUM_PRICE_PER_TASK, MINIMUM_PRICE_PER_TASK, 201, "d".into(), "web_dev"),
        Err(ContractError::TooManyParticipants)
    );
    assert_eq!(mk(&mut c, "alice.testnet", PRICE, PRICE, 1, "d".into(), "music"), Err(ContractError::CategoryNotFound));
    let r = c.new_task(&ctx("alice.testnet", PRICE, u64::MAX, 10), "t".into(), "d".into(), PRICE, 1, 1, "web_dev".into());
    assert_eq!(r, Err(ContractError::ArithmeticOverflow));
    // nothing was stored by the refused calls
    assert!(c.available_tasks(0, 10).unwrap().is_empty());
    assert_eq!(c.categories(0, 1).unwrap()[0].num_posts(), 0);
}

#[test]
fn available_tasks_page_of_newest_listed_oldest_first() {
    let mut c = setup();
    for block in [1u64, 2, 3, 4] {
        c.new_task(
            &ctx("alice.testnet", PRICE, 100, block),
            format!("task {}", block),
            "d".to_string(),
            PRICE,
            1,
            10,
            "web_dev".to_string(),
        )
        .unwrap();
    }
    let all: Vec<String> = c.available_tasks(0, 10).unwrap().into_iter().map(|(id, _)| id).collect();
    assert_eq!(all, vec!["alice.testnet_1", "alice.testnet_2", "alice.testnet_3", "alice.testnet_4"]);
    let page: Vec<String> = c.available_tasks(1, 2).unwrap().into_iter().map(|(id, _)| id).collect();
    assert_eq!(page, vec!["alice.testnet_2", "alice.testnet_3"]);
    // consecutive pages: the older page comes first
    let newer: Vec<String> = c.available_tasks(0, 1).unwrap().into_iter().map(|(id, _)| id).collect();
    let older: Vec<String> = c.available_tasks(1, 3).unwrap().into_iter().map(|(id, _)| id).collect();
    assert_eq!([older, newer].concat(), all);
    assert!(c.available_tasks(4, 2).unwrap().is_empty());
    assert_eq!(c.available_tasks(u64::MAX, 1).err(), Some(ContractError::ArithmeticOverflow));
    let by_ids = c
        .tasks_by_ids(vec!["alice.testnet_2".to_string(), "alice.testnet_1".to_string()])
        .unwrap();
    assert_eq!(by_ids[0].1.title, "task 2");
    assert_eq!(by_ids[1].1.title, "task 1");
    assert_eq!(
        c.tasks_by_ids(vec!["alice.testnet_2".to_string(), "nope".to_string()]).err(),
        Some(ContractError::TaskNotFound)
    );
    assert_eq!(c.task_by_id("nope".to_string()).err(), Some(ContractError::TaskNotFound));
}

#[test]
fn submit_work_records_proposal() {
    let mut c = setup();
    let id = post_task(&mut c);
    c.submit_work(&ctx("bob.testnet", SUBMIT_BOND, 150, 11), id.clone(), "https://github.com/x".to_string())
        .unwrap();
    let t = c.task_by_id(id.clone()).unwrap();
    assert_eq!(t.proposals.len(), 1);
    assert_eq!(t.proposals[0].account_id, "bob.testnet");
    assert_eq!(t.proposals[0].proof_of_work, "https://github.com/x");
    assert!(!t.proposals[0].is_approved && !t.proposals[0].is_reject);
    let bob = c.user_info("bob.testnet".to_string()).unwrap();
    assert_eq!(bob.user_type, UserType::Worker { total_received: 0, current_applies: 1 });
    let current = c.current_tasks("bob.testnet".to_string(), 0, 10).unwrap();
    assert_eq!(current[0].0, id);
}

#[test]
fn submit_work_refusals() {
    let mut c = setup();
    let id = post_task(&mut c);
    assert_eq!(
        c.submit_work(&ctx("bob.testnet", 0, 150, 11), id.clone(), "p".into()),
        Err(ContractError::SubmitBondMismatch)
    );
    assert_eq!(
        c.submit_work(&ctx("bob.testnet", SUBMIT_BOND, 150, 11), "nope".into(), "p".into()),
        Err(ContractError::TaskNotFound)
    );
    assert_eq!(
        c.submit_work(&ctx("bob.testnet", SUBMIT_BOND, 1100, 11), id.clone(), "p".into()),
        Err(ContractError::TaskExpired)
    );
    assert_eq!(
        c.submit_work(&ctx("carol.testnet", SUBMIT_BOND, 150, 11), id.clone(), "p".into()),
        Err(ContractError::UserNotFound)
    );
}

#[test]
fn approve_pays_price_and_bond_then_callback_records() {
    let mut c = setup();
    let id = post_task(&mut c);
    c.submit_work(&ctx("bob.testnet", SUBMIT_BOND, 150, 11), id.clone(), "p".into()).unwrap();
    let (t, cb) = c.approve_work(&ctx("alice.testnet", 0, 160, 12), id.clone(), "bob.testnet".into()).unwrap();
    assert_eq!(t.receiver_id, "bob.testnet");
    assert_eq!(t.amount, PRICE + SUBMIT_BOND);
    assert_eq!(cb.task_id, id);
    assert_eq!(cb.beneficiary_id, "bob.testnet");
    assert_eq!(cb.amount_to_transfer, PRICE);
    // nothing is approved before the callback
    assert!(!c.task_by_id(id.clone()).unwrap().proposals[0].is_approved);
    let ok = c
        .on_transferd(&self_ctx(), &vec![PromiseStatus::Successful], cb.task_id, cb.beneficiary_id, cb.amount_to_transfer)
        .unwrap();
    assert!(ok);
    assert!(c.task_by_id(id.clone()).unwrap().proposals[0].is_approved);
    let bob = c.user_info("bob.testnet".to_string()).unwrap();
    assert_eq!(bob.user_type, UserType::Worker { total_received: PRICE, current_applies: 0 });
    assert_eq!(bob.completed_jobs, vec![id.clone()]);
    assert!(c.current_tasks("bob.testnet".to_string(), 0, 10).unwrap().is_empty());
    assert_eq!(
        c.reject_work(&ctx("alice.testnet", 0, 170, 13), id.clone(), "bob.testnet".into()),
        Err(ContractError::AlreadyApproved)
    );
}

#[test]
fn failed_payment_changes_nothing() {
    let mut c = setup();
    let id = post_task(&mut c);
    c.submit_work(&ctx("bob.testnet", SUBMIT_BOND, 150, 11), id.clone(), "p".into()).unwrap();
    let r = c.on_transferd(&self_ctx(), &vec![PromiseStatus::Failed], id.clone(), "bob.testnet".into(), PRICE);
    assert_eq!(r, Ok(false));
    assert!(!c.task_by_id(id.clone()).unwrap().proposals[0].is_approved);
    assert_eq!(
        c.on_transferd(&ctx("bob.testnet", 0, 1, 1), &vec![PromiseStatus::Successful], id.clone(), "bob.testnet".into(), PRICE),
        Err(ContractError::NotSelfCallback)
    );
    assert_eq!(
        c.on_transferd(&self_ctx(), &vec![], id.clone(), "bob.testnet".into(), PRICE),
        Err(ContractError::NotACallback)
    );
}

#[test]
fn owner_completes_job_when_all_places_approved() {
    let mut c = setup();
    c.register(&ctx("carol.testnet", REGISTER_BOND, 1, 1), false).unwrap();
    let id = post_task(&mut c);
    for w in ["bob.testnet", "carol.testnet"] {
        c.submit_work(&ctx(w, SUBMIT_BOND, 150, 11), id.clone(), "p".into()).unwrap();
        let (_, cb) = c.approve_work(&ctx("alice.testnet", 0, 160, 12), id.clone(), w.into()).unwrap();
        c.on_transferd(&self_ctx(), &vec![PromiseStatus::Successful], cb.task_id, cb.beneficiary_id, cb.amount_to_transfer)
            .unwrap();
    }
    let alice = c.user_info("alice.testnet".to_string()).unwrap();
    assert_eq!(alice.completed_jobs, vec![id.clone()]);
    assert!(c.current_tasks("alice.testnet".to_string(), 0, 10).unwrap().is_empty());
    assert_eq!(
        c.submit_work(&ctx("bob.testnet", SUBMIT_BOND, 150, 11), id.clone(), "again".into()),
        Err(ContractError::ParticipantsFull)
    );
}

#[test]
fn reject_then_approve_is_refused() {
    let mut c = setup();
    let id = post_task(&mut c);
    c.submit_work(&ctx("bob.testnet", SUBMIT_BOND, 150, 11), id.clone(), "p".into()).unwrap();
    assert_eq!(
        c.reject_work(&ctx("bob.testnet", 0, 160, 12), id.clone(), "bob.testnet".into()),
        Err(ContractError::NotTaskOwner)
    );
    c.reject_work(&ctx("alice.testnet", 0, 160, 12), id.clone(), "bob.testnet".into()).unwrap();
    assert!(c.task_by_id(id.clone()).unwrap().proposals[0].is_reject);
    assert_eq!(
        c.approve_work(&ctx("alice.testnet", 0, 160, 12), id.clone(), "bob.testnet".into()).err(),
        Some(ContractError::AlreadyRejected)
    );
    assert_eq!(
        c.approve_work(&ctx("alice.testnet", 0, 160, 12), id.clone(), "carol.testnet".into()).err(),
        Some(ContractError::ProposalNotFound)
    );
    assert_eq!(
        c.approve_work(&ctx("alice.testnet", 0, 160, 12), id.clone(), "Carol".into()).err(),
        Some(ContractError::InvalidAccountId)
    );
}

#[test]
fn mark_completed_refunds_unused_places_after_expiry() {
    let mut c = setup();
    let id = post_task(&mut c);
    c.submit_work(&ctx("bob.testnet", SUBMIT_BOND, 150, 11), id.clone(), "p".into()).unwrap();
    assert_eq!(
        c.mark_task_as_completed(&ctx("alice.testnet", 0, 160, 12), id.clone()).err(),
        Some(ContractError::WorkUnchecked)
    );
    c.reject_work(&ctx("alice.testnet", 0, 160, 12), id.clone(), "bob.testnet".into()).unwrap();
    assert_eq!(
        c.mark_task_as_completed(&ctx("alice.testnet", 0, 160, 12), id.clone()).err(),
        Some(ContractError::NotExpired)
    );
    assert_eq!(
        c.mark_task_as_completed(&ctx("bob.testnet", 0, 2000, 12), id.clone()).err(),
        Some(ContractError::NotTaskOwner)
    );
    let ts = c.mark_task_as_completed(&ctx("alice.testnet", 0, 2000, 12), id.clone()).unwrap();
    assert_eq!(ts.len(), 2);
    assert_eq!(ts[0].receiver_id, "alice.testnet");
    assert_eq!(ts[0].amount, PRICE); // two places, one proposal
    assert_eq!(ts[1].receiver_id, "bob.testnet"); // the rejected worker's bond
    assert_eq!(ts[1].amount, SUBMIT_BOND);
    let alice = c.user_info("alice.testnet".to_string()).unwrap();
    assert_eq!(alice.user_type, UserType::Requester { total_transfered: PRICE, current_requests: 0 });
    assert_eq!(alice.completed_jobs, vec![id.clone()]);
    let done = c.completed_tasks("alice.testnet".to_string(), 0, 10).unwrap();
    assert_eq!(done[0].0, id);
    assert_eq!(
        c.mark_task_as_completed(&ctx("alice.testnet", 0, 2000, 12), id.clone()).err(),
        Some(ContractError::NoCurrentRequests)
    );
}

#[test]
fn on_refund_records_refund() {
    let mut c = setup();
    let id = post_task(&mut c);
    let r = c.on_refund(&self_ctx(), &vec![PromiseStatus::Successful], id.clone(), "alice.testnet".into(), 5);
    assert_eq!(r, Ok(true));
    let alice = c.user_info("alice.testnet".to_string()).unwrap();
    assert_eq!(alice.user_type, UserType::Requester { total_transfered: 5, current_requests: 0 });
    assert_eq!(
        c.on_refund(&self_ctx(), &vec![PromiseStatus::Successful], id.clone(), "alice.testnet".into(), 5),
        Err(ContractError::NoCurrentRequests)
    );
    assert_eq!(
        c.on_refund(&self_ctx(), &vec![PromiseStatus::NotReady], id, "alice.testnet".into(), 5),
        Ok(false)
    );
}

#[test]
fn wrapped_user_type_keeps_amounts() {
    let w = WrappedUserType::from(UserType::Worker { total_received: 7, current_applies: 3 });
    assert_eq!(w, WrappedUserType::Worker { total_received: 7, current_applies: 3 });
    let r = WrappedUserType::from(UserType::Requester { total_transfered: 9, current_requests: 1 });
    assert_eq!(r, WrappedUserType::Requester { total_transfered: 9, current_requests: 1 });
}

#[test]
fn maximum_participants_is_two_hundred() {
    assert_eq!(Dupwork::new().maximum_participants_per_task(), 200);
}

#[test]
fn export_then_import_keeps_state() {
    let mut c = setup();
    let id = post_task(&mut c);
    c.submit_work(&ctx("bob.testnet", SUBMIT_BOND, 150, 11), id.clone(), "p".into()).unwrap();
    let (tasks, users, categories) = c.export();
    let d = Dupwork::import(tasks, users, categories).expect("state is well formed");
    let t = d.task_by_id(id.clone()).unwrap();
    assert_eq!(t.proposals.len(), 1);
    assert_eq!(t.proposals[0].account_id, "bob.testnet");
    assert_eq!(d.user_info("bob.testnet".into()).unwrap().user_type, UserType::Worker { total_received: 0, current_applies: 1 });
    assert_eq!(d.current_tasks("bob.testnet".into(), 0, 10).unwrap()[0].0, id);
    assert_eq!(d.categories(0, 10).unwrap()[0].num_posts(), 1);
}

#[test]
fn import_refuses_duplicate_keys_and_bad_escrow() {
    let c = setup();
    let (tasks, mut users, categories) = c.export();
    let (k, u) = users.remove(0);
    let copy = dupwork::User {
        account_id: u.account_id.clone(),
        bio: u.bio.clone(),
        user_type: u.user_type,
        current_jobs: dupwork::table::KeySet::new(),
        completed_jobs: dupwork::table::KeySet::new(),
    };
    users.push((k.clone(), u));
    users.push((k, copy));
    assert!(Dupwork::import(tasks, users, categories).is_none());

    let bad = dupwork::Task {
        owner: "alice.testnet".into(),
        title: "t".into(),
        description: "d".into(),
        max_participants: 0,
        price: PRICE,
        proposals: dupwork::table::Table::new(),
        created_at: 0,
        available_until: 1,
        category_id: "web_dev".into(),
    };
    assert!(Dupwork::import(vec![("x_1".to_string(), bad)], vec![], vec![]).is_none());
}

#[test]
fn callbacks_refuse_missing_records() {
    let mut c = setup();
    let id = post_task(&mut c);
    c.submit_work(&ctx("bob.testnet", SUBMIT_BOND, 150, 11), id.clone(), "p".into()).unwrap();
    // paying the same proposal twice: the second record finds no open application
    let (_, cb) = c.approve_work(&ctx("alice.testnet", 0, 160, 12), id.clone(), "bob.testnet".into()).unwrap();
    c.on_transferd(&self_ctx(), &vec![PromiseStatus::Successful], cb.task_id.clone(), cb.beneficiary_id.clone(), cb.amount_to_transfer)
        .unwrap();
    assert_eq!(
        c.on_transferd(&self_ctx(), &vec![PromiseStatus::Successful], cb.task_id, cb.beneficiary_id, cb.amount_to_transfer),
        Err(ContractError::NoCurrentApplies)
    );
    // a worker who left
    c.leave(&ctx("bob.testnet", 0, 170, 13)).unwrap();
    assert_eq!(
        c.on_transferd(&self_ctx(), &vec![PromiseStatus::Successful], id.clone(), "bob.testnet".into(), PRICE),
        Err(ContractError::WorkerNotFound)
    );
    assert_eq!(
        c.on_transferd(&self_ctx(), &vec![PromiseStatus::Successful], "nope".into(), "bob.testnet".into(), PRICE),
        Err(ContractError::TaskNotFound)
    );
    assert_eq!(
        c.on_transferd(&self_ctx(), &vec![PromiseStatus::Successful], id.clone(), "carol.testnet".into(), PRICE),
        Err(ContractError::ProposalNotFound)
    );
    // an owner who left
    c.leave(&ctx("alice.testnet", 0, 170, 13)).unwrap();
    assert_eq!(
        c.mark_task_as_completed(&ctx("alice.testnet", 0, 2000, 14), id.clone()).err(),
        Some(ContractError::OwnerNotFound)
    );
    assert_eq!(
        c.on_refund(&self_ctx(), &vec![PromiseStatus::Successful], id, "alice.testnet".into(), 1),
        Err(ContractError::OwnerNotFound)
    );
}

#[test]
fn readme_new_task_example() {
    let mut c = Dupwork::new();
    c.register(&ctx("job_creator.testnet", 500_000_000_000_000_000_000_000, 1, 1), true).unwrap();
    c.new_category(&ctx("job_creator.testnet", 0, 1, 1), "retweet".to_string()).unwrap();
    c.new_task(
        &ctx("job_creator.testnet", 2_000_000_000_000_000_000, 1645543317976864394, 83453651),
        "Retweet LNC post".to_string(),
        "Please Retweet this https://twitter.com/LearnNear/status/1491130118055796737. Your account need at least 5000 real followers".to_string(),
        1_000_000_000_000_000_000,
        2,
        99999999999999999,
        "retweet".to_string(),
    )
    .unwrap();
    let t = c.task_by_id("job_creator.testnet_83453651".to_string()).unwrap();
    assert_eq!(t.owner, "job_creator.testnet");
    assert_eq!(t.title, "Retweet LNC post");
    assert_eq!(t.max_participants, 2);
    assert_eq!(t.price, 1_000_000_000_000_000_000);
    assert!(t.proposals.is_empty());
    assert_eq!(t.available_until, 1745543317976864393);
}

#[test]
fn readme_submission_bond_is_a_tenth_of_a_near() {
    let mut c = setup();
    let id = post_task(&mut c);
    assert_eq!(SUBMIT_BOND, 100_000_000_000_000_000_000_000);
    assert_eq!(
        c.submit_work(&ctx("bob.testnet", 10_000_000_000_000_000_000_000, 150, 11), id.clone(), "p".into()),
        Err(ContractError::SubmitBondMismatch)
    );
    c.submit_work(&ctx("bob.testnet", 100_000_000_000_000_000_000_000, 150, 11), id.clone(), "p".into()).unwrap();
}

#[test]
fn readme_available_tasks_example_oldest_first() {
    let mut c = Dupwork::new();
    c.register(&ctx("job_creator.testnet", REGISTER_BOND, 1, 1), true).unwrap();
    c.new_category(&ctx("job_creator.testnet", 0, 1, 1), "retweet".to_string()).unwrap();
    for block in [83453377u64, 83453523, 83453651, 83454176] {
        c.new_task(
            &ctx("job_creator.testnet", 2 * PRICE, 1645543006936448101, block),
            "Retweet LNC post".to_string(),
            "d".to_string(),
            PRICE,
            2,
            1000,
            "retweet".to_string(),
        )
        .unwrap();
    }
    let ids: Vec<String> = c.available_tasks(0, 10).unwrap().into_iter().map(|(id, _)| id).collect();
    assert_eq!(
        ids,
        vec![
            "job_creator.testnet_83453377",
            "job_creator.testnet_83453523",
            "job_creator.testnet_83453651",
            "job_creator.testnet_83454176"
        ]
    );
}

#[test]
fn closing_returns_bonds_of_rejected_workers_only() {
    let mut c = setup();
    c.register(&ctx("carol.testnet", REGISTER_BOND, 1, 1), false).unwrap();
    let id = post_task(&mut c);
    for w in ["bob.testnet", "carol.testnet"] {
        c.submit_work(&ctx(w, SUBMIT_BOND, 150, 11), id.clone(), "p".into()).unwrap();
    }
    c.reject_work(&ctx("alice.testnet", 0, 160, 12), id.clone(), "carol.testnet".into()).unwrap();
    let (t, cb) = c.approve_work(&ctx("alice.testnet", 0, 160, 12), id.clone(), "bob.testnet".into()).unwrap();
    assert_eq!(t.amount, PRICE + SUBMIT_BOND);
    c.on_transferd(&self_ctx(), &vec![PromiseStatus::Successful], cb.task_id, cb.beneficiary_id, cb.amount_to_transfer)
        .unwrap();
    let ts = c.mark_task_as_completed(&ctx("alice.testnet", 0, 2000, 14), id.clone()).unwrap();
    // one approval for two places: the owner's refund covers no unused place
    // (two proposals), then carol's bond comes back; bob's came with his pay
    assert_eq!(ts.len(), 2);
    assert_eq!(ts[0].receiver_id, "alice.testnet");
    assert_eq!(ts[0].amount, 0);
    assert_eq!(ts[1].receiver_id, "carol.testnet");
    assert_eq!(ts[1].amount, SUBMIT_BOND);
}

#[test]
fn new_task_heads_open_jobs_and_closed_task_moves_to_completed() {
    let mut c = setup();
    let first = post_task(&mut c);
    c.new_task(
        &ctx("alice.testnet", PRICE, 100, 11),
        "Second".to_string(),
        "d".to_string(),
        PRICE,
        1,
        10,
        "web_dev".to_string(),
    )
    .unwrap();
    let head = c.current_tasks("alice.testnet".to_string(), 0, 1).unwrap();
    assert_eq!(head.len(), 1);
    assert_eq!(head[0].0, "alice.testnet_11");
    assert_eq!(head[0].1.title, "Second");
    // two tasks under the category
    assert_eq!(c.categories(0, 1).unwrap()[0].num_posts(), 2);
    // close the first (nobody applied, expired)
    c.mark_task_as_completed(&ctx("alice.testnet", 0, 5000, 12), first.clone()).unwrap();
    let open: Vec<String> = c.current_tasks("alice.testnet".to_string(), 0, 10).unwrap().into_iter().map(|(id, _)| id).collect();
    assert_eq!(open, vec!["alice.testnet_11"]);
    let done: Vec<String> = c.completed_tasks("alice.testnet".to_string(), 0, 10).unwrap().into_iter().map(|(id, _)| id).collect();
    assert_eq!(done, vec![first]);
}

#[test]
fn bond_not_returned_twice_when_rejected_during_payment() {
    let mut c = setup();
    let id = post_task(&mut c);
    c.submit_work(&ctx("bob.testnet", SUBMIT_BOND, 150, 11), id.clone(), "p".into()).unwrap();
    // payment scheduled, then a rejection before its callback runs
    let (t, cb) = c.approve_work(&ctx("alice.testnet", 0, 160, 12), id.clone(), "bob.testnet".into()).unwrap();
    assert_eq!(t.amount, PRICE + SUBMIT_BOND);
    c.reject_work(&ctx("alice.testnet", 0, 161, 12), id.clone(), "bob.testnet".into()).unwrap();
    c.on_transferd(&self_ctx(), &vec![PromiseStatus::Successful], cb.task_id, cb.beneficiary_id, cb.amount_to_transfer)
        .unwrap();
    let p = &c.task_by_id(id.clone()).unwrap().proposals[0];
    assert!(p.is_approved && p.is_reject);
    let ts = c.mark_task_as_completed(&ctx("alice.testnet", 0, 2000, 14), id.clone()).unwrap();
    // only the owner's refund of the unused place; no second bond for bob
    assert_eq!(ts.len(), 1);
    assert_eq!(ts[0].receiver_id, "alice.testnet");
    assert_eq!(ts[0].amount, PRICE);
}

#[test]
fn minimum_escrow_is_two_e18() {
    let mut c = setup();
    let r = c.new_task(
        &ctx("alice.testnet", 1_500_000_000_000_000_000, 100, 10),
        "t".into(),
        "d".into(),
        1_500_000_000_000_000_000,
        1,
        10,
        "web_dev".into(),
    );
    assert_eq!(r, Err(ContractError::TotalAmountOutOfRange));
    assert_eq!(MINIMUM_PRICE_PER_TASK, 2_000_000_000_000_000_000);
    c.new_task(
        &ctx("alice.testnet", 2_000_000_000_000_000_000, 100, 10),
        "t".into(),
        "d".into(),
        2_000_000_000_000_000_000,
        1,
        10,
        "web_dev".into(),
    )
    .unwrap();
}
