//! The authenticated identity behind a request, and the statements that
//! read and replace the stored sessions it is found from.
use vstd::prelude::*;
use crate::credentials::UserRecord;
use crate::error::AuthError;
use crate::policy::{Operation, Resource, Variant, authorize, decision};
use crate::role::{Role, role_named};
use crate::session::Session;
use crate::sql::Statement;
use crate::value::{Value, clone_text};

verus! {

/// The username and role of the account that a valid token belongs to. A
/// stored role outside the closed set is kept as `None`, and denied.
#[derive(Clone, Debug)]
pub struct Principal {
    pub username: String,
    pub role: Option<Role>,
}

impl Principal {
    /// The principal of an account.
    pub fn of(user: &UserRecord) -> (r: Principal)
        ensures
            r.username == user.username,
            r.role == role_named(user.role@),
    {
        Principal { username: clone_text(&user.username), role: Role::parse(&user.role) }
    }

    /// The variant this principal may use for `op` on `res`, or denial.
    pub fn authorize(&self, res: Resource, op: Operation) -> (r: Result<Variant, AuthError>)
        ensures
            self.role is None ==> r == Err::<Variant, AuthError>(AuthError::Forbidden),
            self.role matches Some(ro) ==> r == decision(ro, res, op),
    {
        match self.role {
            Some(ro) => authorize(ro, res, op),
            None => Err(AuthError::Forbidden),
        }
    }
}

/// The sessions that hold a token.
pub fn sessions_by_token_statement(token: &String) -> (r: Statement)
    ensures
        r.sql@ == "SELECT UserId, Token, CAST(UNIX_TIMESTAMP(ConnectionDate) AS UNSIGNED) AS IssuedAt, CAST(UNIX_TIMESTAMP(Expires) AS UNSIGNED) AS ExpiresAt FROM UserSession WHERE Token = ?"@,
        r.params@ == seq![Value::Text(*token)],
{
    Statement {
        sql: String::from_str("SELECT UserId, Token, CAST(UNIX_TIMESTAMP(ConnectionDate) AS UNSIGNED) AS IssuedAt, CAST(UNIX_TIMESTAMP(Expires) AS UNSIGNED) AS ExpiresAt FROM UserSession WHERE Token = ?"),
        params: vec![Value::Text(clone_text(token))],
    }
}

/// The sessions of a user, locked until the end of the transaction, so that
/// two logins of one user are decided one after the other.
pub fn sessions_of_user_statement(user_id: i32) -> (r: Statement)
    ensures
        r.sql@ == "SELECT UserId, Token, CAST(UNIX_TIMESTAMP(ConnectionDate) AS UNSIGNED) AS IssuedAt, CAST(UNIX_TIMESTAMP(Expires) AS UNSIGNED) AS ExpiresAt FROM UserSession WHERE UserId = ? FOR UPDATE"@,
        r.params@ == seq![Value::Int(user_id)],
{
    Statement {
        sql: String::from_str("SELECT UserId, Token, CAST(UNIX_TIMESTAMP(ConnectionDate) AS UNSIGNED) AS IssuedAt, CAST(UNIX_TIMESTAMP(Expires) AS UNSIGNED) AS ExpiresAt FROM UserSession WHERE UserId = ? FOR UPDATE"),
        params: vec![Value::Int(user_id)],
    }
}

/// The replacement of a user's sessions by `s`, in one transaction: the
/// deletion of every session of the user, then the insert of `s`.
pub fn replace_sessions_statements(s: &Session) -> (r: Vec<Statement>)
    ensures
        r@.len() == 2,
        r@[0].sql@ == "DELETE FROM UserSession WHERE UserId = ?"@,
        r@[0].params@ == seq![Value::Int(s.user_id)],
        r@[1].sql@ == "INSERT INTO UserSession (UserId, Token, ConnectionDate, Expires) VALUES (?, ?, FROM_UNIXTIME(?), FROM_UNIXTIME(?))"@,
        r@[1].params@ == seq![Value::Int(s.user_id), Value::Text(s.token), Value::Size(s.issued_at), Value::Size(s.expires_at)],
{
    vec![
        Statement { sql: String::from_str("DELETE FROM UserSession WHERE UserId = ?"), params: vec![Value::Int(s.user_id)] },
        Statement {
            sql: String::from_str("INSERT INTO UserSession (UserId, Token, ConnectionDate, Expires) VALUES (?, ?, FROM_UNIXTIME(?), FROM_UNIXTIME(?))"),
            params: vec![Value::Int(s.user_id), Value::Text(clone_text(&s.token)), Value::Size(s.issued_at), Value::Size(s.expires_at)],
        },
    ]
}

/// The account with a given id.
pub fn user_by_id_statement(id: i32) -> (r: Statement)
    ensures
        r.sql@ == "SELECT Id, Username, Password, Role FROM User WHERE Id = ?"@,
        r.params@ == seq![Value::Int(id)],
{
    Statement {
        sql: String::from_str("SELECT Id, Username, Password, Role FROM User WHERE Id = ?"),
        params: vec![Value::Int(id)],
    }
}

} // verus!
