use shaft::db::memory::MemoryDatabase;
use shaft::db::{DatabaseError, Transaction, User};

fn store_with(users: &[&str]) -> MemoryDatabase {
    let mut db = MemoryDatabase::new();
    for user in users {
        let id = db
            .add_user_by_github_id(user.to_string(), user.to_uppercase())
            .unwrap();
        assert_eq!(id, *user);
    }
    db
}

fn txn(shafter: &str, shaftee: &str, amount: i64, datetime: i64, reason: &str) -> Transaction {
    Transaction {
        shafter: shafter.to_string(),
        shaftee: shaftee.to_string(),
        amount,
        datetime,
        reason: reason.to_string(),
    }
}

#[test]
fn new_store_is_empty() {
    let db = MemoryDatabase::new();
    assert_eq!(db.get_all_users().unwrap().len(), 0);
    assert_eq!(db.get_last_transactions(20).unwrap(), vec![]);
    assert_eq!(db.get_balance_for_user("nobody".to_string()), Ok(0));
    assert_eq!(db.get_user_by_github_id("nobody".to_string()), Ok(None));
}

#[test]
fn end_to_end_alice_and_bob() {
    let mut db = MemoryDatabase::new();
    db.add_user_by_github_id("alice".to_string(), "Alice".to_string()).unwrap();
    db.add_user_by_github_id("bob".to_string(), "Bob".to_string()).unwrap();
    assert_eq!(db.get_balance_for_user("alice".to_string()), Ok(0));
    assert_eq!(db.get_balance_for_user("bob".to_string()), Ok(0));

    let lunch = txn("alice", "bob", 500, 1_600_000_000, "lunch");
    assert_eq!(db.shaft_user(lunch.clone()), Ok(()));

    assert_eq!(db.get_balance_for_user("alice".to_string()), Ok(500));
    assert_eq!(db.get_balance_for_user("bob".to_string()), Ok(-500));

    let all = db.get_all_users().unwrap();
    let listed: Vec<(String, User)> = all.into();
    assert_eq!(
        listed,
        vec![
            (
                "bob".to_string(),
                User { user_id: "bob".to_string(), display_name: "Bob".to_string(), balance: -500 }
            ),
            (
                "alice".to_string(),
                User {
                    user_id: "alice".to_string(),
                    display_name: "Alice".to_string(),
                    balance: 500
                }
            ),
        ]
    );

    assert_eq!(db.get_last_transactions(1), Ok(vec![lunch]));
}

#[test]
fn balance_is_credits_minus_debits() {
    let mut db = store_with(&["a", "b", "c"]);
    db.shaft_user(txn("a", "b", 700, 1, "one")).unwrap();
    db.shaft_user(txn("b", "a", 200, 2, "two")).unwrap();
    db.shaft_user(txn("c", "a", -50, 3, "three")).unwrap();
    db.shaft_user(txn("a", "c", 25, 4, "four")).unwrap();
    db.shaft_user(txn("b", "b", 999, 5, "to oneself")).unwrap();
    assert_eq!(db.get_balance_for_user("a".to_string()), Ok(700 + 25 - 200 + 50));
    assert_eq!(db.get_balance_for_user("b".to_string()), Ok(200 - 700));
    assert_eq!(db.get_balance_for_user("c".to_string()), Ok(-50 - 25));
}

#[test]
fn balances_sum_to_zero_after_every_append() {
    let mut db = store_with(&["a", "b", "c", "d"]);
    let steps = [
        txn("a", "b", 1234, 1, ""),
        txn("b", "c", -77, 2, ""),
        txn("d", "a", 100_000, 3, ""),
        txn("c", "d", i64::MAX / 2, 4, ""),
        txn("d", "c", i64::MAX / 2, 5, ""),
        txn("a", "a", 5, 6, ""),
    ];
    for step in steps {
        db.shaft_user(step).unwrap();
        let mut sum: i128 = 0;
        for user in ["a", "b", "c", "d"] {
            sum += db.get_balance_for_user(user.to_string()).unwrap() as i128;
        }
        assert_eq!(sum, 0);
    }
}

#[test]
fn unknown_shaftee_is_rejected_and_nothing_changes() {
    let mut db = store_with(&["alice", "bob"]);
    db.shaft_user(txn("alice", "bob", 10, 1, "before")).unwrap();
    let users_before: Vec<(String, User)> = db.get_all_users().unwrap().into();
    let recent_before = db.get_last_transactions(100).unwrap();

    let rejected = db.shaft_user(txn("alice", "ghost", 5, 2, "boo"));
    assert_eq!(rejected, Err(DatabaseError::UnknownUser { user_id: "ghost".to_string() }));

    let users_after: Vec<(String, User)> = db.get_all_users().unwrap().into();
    assert_eq!(users_after, users_before);
    assert_eq!(db.get_last_transactions(100).unwrap(), recent_before);
    assert_eq!(db.get_last_transactions(100).unwrap().len(), 1);
}

#[test]
fn unknown_shafter_is_taken_on_trust() {
    let mut db = store_with(&["bob"]);
    assert_eq!(db.shaft_user(txn("ghost", "bob", 5, 1, "")), Ok(()));
    assert_eq!(db.get_balance_for_user("bob".to_string()), Ok(-5));
    assert_eq!(db.get_balance_for_user("ghost".to_string()), Ok(5));
    let listed: Vec<(String, User)> = db.get_all_users().unwrap().into();
    assert_eq!(listed.len(), 1);
    assert_eq!(listed[0].1.balance, -5);
}

#[test]
fn recent_returns_latest_first() {
    let mut db = store_with(&["a", "b"]);
    let t1 = txn("a", "b", 1, 100, "first");
    let t2 = txn("b", "a", 2, 100, "second");
    let t3 = txn("a", "b", 3, 50, "third");
    db.shaft_user(t1.clone()).unwrap();
    db.shaft_user(t2.clone()).unwrap();
    db.shaft_user(t3.clone()).unwrap();
    assert_eq!(db.get_last_transactions(2), Ok(vec![t3.clone(), t2.clone()]));
    assert_eq!(db.get_last_transactions(0), Ok(vec![]));
    assert_eq!(db.get_last_transactions(3), Ok(vec![t3.clone(), t2.clone(), t1.clone()]));
    assert_eq!(db.get_last_transactions(u32::MAX), Ok(vec![t3, t2, t1]));
}

#[test]
fn all_users_are_listed_by_ascending_balance() {
    let mut db = store_with(&["u1", "u2", "u3", "u4", "u5"]);
    db.shaft_user(txn("u1", "u2", 300, 1, "")).unwrap();
    db.shaft_user(txn("u5", "u4", 100, 2, "")).unwrap();
    // u1: 300, u2: -300, u3: 0, u4: -100, u5: 100
    let listed: Vec<(String, User)> = db.get_all_users().unwrap().into();
    let ids: Vec<&str> = listed.iter().map(|(id, _)| id.as_str()).collect();
    assert_eq!(ids, vec!["u2", "u4", "u3", "u5", "u1"]);
    let balances: Vec<i64> = listed.iter().map(|(_, u)| u.balance).collect();
    assert_eq!(balances, vec![-300, -100, 0, 100, 300]);
    for (id, user) in &listed {
        assert_eq!(id, &user.user_id);
        assert_eq!(user.display_name, id.to_uppercase());
    }
}

#[test]
fn users_of_equal_balance_keep_their_order_of_creation() {
    let mut db = store_with(&["z", "m", "a", "k"]);
    db.shaft_user(txn("m", "k", 10, 1, "")).unwrap();
    // z: 0, m: 10, a: 0, k: -10
    let listed: Vec<(String, User)> = db.get_all_users().unwrap().into();
    let ids: Vec<&str> = listed.iter().map(|(id, _)| id.as_str()).collect();
    assert_eq!(ids, vec!["k", "z", "a", "m"]);
}

#[test]
fn the_map_of_all_users_finds_each_user_by_id() {
    let mut db = store_with(&["a", "b"]);
    db.shaft_user(txn("a", "b", 42, 1, "")).unwrap();
    let all = db.get_all_users().unwrap();
    assert_eq!(all.len(), 2);
    assert_eq!(all.get("a").map(|u| u.balance), Some(42));
    assert_eq!(all.get("b").map(|u| u.balance), Some(-42));
    assert!(all.get("c").is_none());
}

#[test]
fn a_balance_beyond_64_bits_is_reported_as_corrupt() {
    let mut db = store_with(&["rich", "poor", "other"]);
    db.shaft_user(txn("rich", "poor", i64::MAX, 1, "")).unwrap();
    assert_eq!(db.get_balance_for_user("rich".to_string()), Ok(i64::MAX));
    assert_eq!(db.get_balance_for_user("poor".to_string()), Ok(-i64::MAX));
    db.shaft_user(txn("rich", "poor", 1, 2, "")).unwrap();
    assert_eq!(db.get_balance_for_user("rich".to_string()), Err(DatabaseError::Corrupt));
    assert_eq!(db.get_balance_for_user("poor".to_string()), Ok(i64::MIN));
    assert_eq!(db.get_balance_for_user("other".to_string()), Ok(0));
    assert_eq!(db.get_all_users(), Err(DatabaseError::Corrupt));
    db.shaft_user(txn("poor", "rich", 1, 3, "")).unwrap();
    assert_eq!(db.get_balance_for_user("rich".to_string()), Ok(i64::MAX));
    assert!(db.get_all_users().is_ok());
}

#[test]
fn a_user_is_created_once() {
    let mut db = MemoryDatabase::new();
    assert_eq!(db.get_user_by_github_id("gh:42".to_string()), Ok(None));
    assert_eq!(
        db.add_user_by_github_id("gh:42".to_string(), "Alice".to_string()),
        Ok("gh:42".to_string())
    );
    assert_eq!(db.get_user_by_github_id("gh:42".to_string()), Ok(Some("gh:42".to_string())));
    assert_eq!(
        db.add_user_by_github_id("gh:42".to_string(), "Impostor".to_string()),
        Err(DatabaseError::Conflict)
    );
    let listed: Vec<(String, User)> = db.get_all_users().unwrap().into();
    assert_eq!(listed.len(), 1);
    assert_eq!(listed[0].1.display_name, "Alice");
}

#[test]
fn the_roster_and_the_ledger_can_be_read_back() {
    let mut db = MemoryDatabase::new();
    assert_eq!(db.roster(), vec![]);
    assert_eq!(db.transaction_count(), 0);
    db.add_user_by_github_id("z".to_string(), "Zed".to_string()).unwrap();
    db.add_user_by_github_id("a".to_string(), "Ann".to_string()).unwrap();
    db.shaft_user(txn("z", "a", 1, 1, "")).unwrap();
    db.shaft_user(txn("z", "nobody", 1, 2, "")).unwrap_err();
    db.shaft_user(txn("a", "z", 1, 3, "")).unwrap();
    assert_eq!(
        db.roster(),
        vec![("z".to_string(), "Zed".to_string()), ("a".to_string(), "Ann".to_string())]
    );
    assert_eq!(db.transaction_count(), 2);
}

#[test]
fn database_errors_say_what_went_wrong() {
    assert_eq!(
        DatabaseError::UnknownUser { user_id: "ghost".to_string() }.message(),
        "Unknown user: ghost"
    );
    assert_eq!(DatabaseError::Conflict.message(), "Already recorded");
    assert_eq!(DatabaseError::Corrupt.message(), "Stored data is corrupt");
    assert_eq!(DatabaseError::ResourceUnavailable.message(), "Store unavailable");
}

#[test]
fn transactions_and_users_can_be_cloned() {
    let t = txn("a", "b", -7, 99, "why");
    assert_eq!(t.clone(), t);
    let u = User { user_id: "a".to_string(), display_name: "A".to_string(), balance: -3 };
    assert_eq!(u.clone(), u);
}
