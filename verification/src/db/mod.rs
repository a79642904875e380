//! The data store: users, session tokens and the transaction ledger.

use vstd::prelude::*;

pub mod journal;
pub mod laws;
pub mod ledger;
pub mod linear;
pub mod memory;
pub mod model;
pub mod order;
pub mod token;

verus! {

/// A single transaction between two users.
#[derive(Debug, PartialEq, Eq)]
pub struct Transaction {
    /// The user who is creating the transaction.
    pub shafter: String,
    /// The other party in the transaction.
    pub shaftee: String,
    /// The amount of money in pence. Positive means shafter is owed the amount,
    /// negative means shafter owes the amount.
    pub amount: i64,
    /// Time transaction happened, in seconds since the Unix epoch (UTC).
    pub datetime: i64,
    /// A human readable description of the transaction.
    pub reason: String,
}

/// What a [`Transaction`] says, as mathematical values.
pub struct TransactionView {
    pub shafter: Seq<char>,
    pub shaftee: Seq<char>,
    pub amount: int,
    pub datetime: int,
    pub reason: Seq<char>,
}

impl View for Transaction {
    type V = TransactionView;

    open spec fn view(&self) -> TransactionView {
        TransactionView {
            shafter: self.shafter@,
            shaftee: self.shaftee@,
            amount: self.amount as int,
            datetime: self.datetime as int,
            reason: self.reason@,
        }
    }
}

impl Clone for Transaction {
    fn clone(&self) -> (copy: Self)
        ensures
            copy@ == self@,
    {
        Transaction {
            shafter: self.shafter.clone(),
            shaftee: self.shaftee.clone(),
            amount: self.amount,
            datetime: self.datetime,
            reason: self.reason.clone(),
        }
    }
}

/// What a list of transactions says, as mathematical values.
pub open spec fn transaction_views(list: Seq<Transaction>) -> Seq<TransactionView> {
    list.map_values(|t: Transaction| t@)
}

/// A user and their balance
#[derive(Debug, PartialEq, Eq)]
pub struct User {
    /// Their internal shaft user ID
    pub user_id: String,
    /// Their display name
    pub display_name: String,
    /// Their current balance
    pub balance: i64,
}

/// What a [`User`] record says, as mathematical values.
pub struct UserView {
    pub user_id: Seq<char>,
    pub display_name: Seq<char>,
    pub balance: int,
}

impl View for User {
    type V = UserView;

    open spec fn view(&self) -> UserView {
        UserView {
            user_id: self.user_id@,
            display_name: self.display_name@,
            balance: self.balance as int,
        }
    }
}

impl Clone for User {
    fn clone(&self) -> (copy: Self)
        ensures
            copy@ == self@,
    {
        User {
            user_id: self.user_id.clone(),
            display_name: self.display_name.clone(),
            balance: self.balance,
        }
    }
}

/// Error using database.
#[derive(Debug, PartialEq, Eq)]
pub enum DatabaseError {
    /// No connection to the store could be had, or the storage engine
    /// faulted. A transient failure; nothing was changed.
    ResourceUnavailable,
    /// One of the users is unknown.
    UnknownUser { user_id: String },
    /// The identity or the token to be recorded is in the store already.
    Conflict,
    /// What is stored does not fit the shape that the answer must have,
    /// such as a balance beyond 64 bits.
    Corrupt,
}

/// What a [`DatabaseError`] says, as mathematical values.
pub enum DatabaseErrorView {
    ResourceUnavailable,
    UnknownUser { user_id: Seq<char> },
    Conflict,
    Corrupt,
}

impl View for DatabaseError {
    type V = DatabaseErrorView;

    open spec fn view(&self) -> DatabaseErrorView {
        match self {
            DatabaseError::ResourceUnavailable => DatabaseErrorView::ResourceUnavailable,
            DatabaseError::UnknownUser { user_id } => DatabaseErrorView::UnknownUser {
                user_id: user_id@,
            },
            DatabaseError::Conflict => DatabaseErrorView::Conflict,
            DatabaseError::Corrupt => DatabaseErrorView::Corrupt,
        }
    }
}

impl DatabaseError {
    /// What the error says, in words.
    pub open spec fn message_text(self) -> Seq<char> {
        match self {
            DatabaseError::ResourceUnavailable => "Store unavailable"@,
            DatabaseError::UnknownUser { user_id } => "Unknown user: "@ + user_id@,
            DatabaseError::Conflict => "Already recorded"@,
            DatabaseError::Corrupt => "Stored data is corrupt"@,
        }
    }

    /// What the error says, in words.
    pub fn message(&self) -> (text: String)
        ensures
            text@ == self.message_text(),
    {
        match self {
            DatabaseError::ResourceUnavailable => "Store unavailable".to_owned(),
            DatabaseError::UnknownUser { user_id } => "Unknown user: ".to_owned().concat(
                user_id.as_str(),
            ),
            DatabaseError::Conflict => "Already recorded".to_owned(),
            DatabaseError::Corrupt => "Stored data is corrupt".to_owned(),
        }
    }
}

} // verus!
