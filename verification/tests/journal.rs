use shaft::db::journal::{Pending, Stored};
use shaft::db::memory::MemoryDatabase;
use shaft::db::Transaction;

fn txn(shafter: &str, shaftee: &str, amount: i64) -> Transaction {
    Transaction {
        shafter: shafter.to_string(),
        shaftee: shaftee.to_string(),
        amount,
        datetime: 5,
        reason: "r".to_string(),
    }
}

fn pair(a: &str, b: &str) -> (String, String) {
    (a.to_string(), b.to_string())
}

#[test]
fn nothing_is_pending_for_a_copy_that_is_up_to_date() {
    let mut db = MemoryDatabase::new();
    assert_eq!(db.stored(), Stored { users: 0, transactions: 0, tokens: vec![] });
    db.add_user_by_github_id("a".to_string(), "A".to_string()).unwrap();
    db.bind_token("a".to_string(), "t".to_string()).unwrap();
    db.shaft_user(txn("a", "a", 1)).unwrap();
    let stored = db.stored();
    assert_eq!(stored, Stored { users: 1, transactions: 1, tokens: vec!["t".to_string()] });
    assert_eq!(
        db.pending(&stored),
        Pending { users: vec![], bound: vec![], revoked: vec![], transactions: vec![] }
    );
}

#[test]
fn what_the_copy_lacks_is_pending() {
    let mut db = MemoryDatabase::new();
    db.add_user_by_github_id("a".to_string(), "A".to_string()).unwrap();
    db.add_user_by_github_id("b".to_string(), "B".to_string()).unwrap();
    db.bind_token("a".to_string(), "kept".to_string()).unwrap();
    db.bind_token("b".to_string(), "new".to_string()).unwrap();
    db.shaft_user(txn("a", "b", 1)).unwrap();
    db.shaft_user(txn("b", "a", 2)).unwrap();
    db.shaft_user(txn("a", "b", 3)).unwrap();
    let stored = Stored {
        users: 1,
        transactions: 2,
        tokens: vec!["gone".to_string(), "kept".to_string(), "gone too".to_string()],
    };
    assert_eq!(
        db.pending(&stored),
        Pending {
            users: vec![pair("b", "B")],
            bound: vec![pair("new", "b")],
            revoked: vec!["gone".to_string(), "gone too".to_string()],
            transactions: vec![txn("a", "b", 3)],
        }
    );
    let empty = Stored { users: 0, transactions: 0, tokens: vec![] };
    let all = db.pending(&empty);
    assert_eq!(all.users, vec![pair("a", "A"), pair("b", "B")]);
    assert_eq!(all.bound, vec![pair("kept", "a"), pair("new", "b")]);
    assert_eq!(all.revoked, Vec::<String>::new());
    assert_eq!(all.transactions, vec![txn("a", "b", 1), txn("b", "a", 2), txn("a", "b", 3)]);
}

#[test]
fn a_copy_that_claims_more_than_there_is_gets_nothing() {
    let mut db = MemoryDatabase::new();
    db.add_user_by_github_id("a".to_string(), "A".to_string()).unwrap();
    db.shaft_user(txn("a", "a", 1)).unwrap();
    let stored = Stored { users: 5, transactions: usize::MAX, tokens: vec![] };
    assert_eq!(
        db.pending(&stored),
        Pending { users: vec![], bound: vec![], revoked: vec![], transactions: vec![] }
    );
    assert_eq!(db.transactions_from(0), vec![txn("a", "a", 1)]);
    assert_eq!(db.transactions_from(1), vec![]);
    assert_eq!(db.transactions_from(2), vec![]);
}

#[test]
fn a_token_is_bound_or_it_is_not() {
    let mut db = MemoryDatabase::new();
    db.add_user_by_github_id("a".to_string(), "A".to_string()).unwrap();
    db.bind_token("a".to_string(), "t".to_string()).unwrap();
    assert!(db.is_bound(&"t".to_string()));
    assert!(!db.is_bound(&"u".to_string()));
    db.delete_token("t".to_string()).unwrap();
    assert!(!db.is_bound(&"t".to_string()));
}
