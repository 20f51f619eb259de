use casework::credentials::UserRecord;
use casework::error::{AuthError, Failure};
use casework::session::{LoginReply, Session, SessionTable, SESSION_SECONDS};

fn account(id: i32, password: &str) -> UserRecord {
    UserRecord {
        id,
        username: format!("user{}", id),
        password: bcrypt::hash(password, 4).unwrap(),
        role: "User".to_string(),
    }
}

#[test]
fn validate_accepts_only_live_known_tokens() {
    let mut table = SessionTable::new();
    let t = table.issue(1, 1000, "tok-a".to_string()).unwrap();
    assert_eq!(t, "tok-a");
    assert_eq!(table.validate(&t, 1000), Ok(1));
    assert_eq!(table.validate(&t, 1000 + SESSION_SECONDS - 1), Ok(1));
    assert_eq!(table.validate(&t, 1000 + SESSION_SECONDS), Err(AuthError::InvalidOrExpiredToken));
    assert_eq!(table.validate(&"other".to_string(), 1000), Err(AuthError::InvalidOrExpiredToken));
}

#[test]
fn an_expired_token_never_becomes_valid_again() {
    let mut table = SessionTable::new();
    let t = table.issue(1, 0, "tok-a".to_string()).unwrap();
    for now in [SESSION_SECONDS, SESSION_SECONDS + 1, 10 * SESSION_SECONDS] {
        assert!(table.validate(&t, now).is_err());
    }
    let t2 = table.issue(1, 2 * SESSION_SECONDS, "tok-b".to_string()).unwrap();
    assert_eq!(t2, "tok-b");
    assert!(table.validate(&t, 2 * SESSION_SECONDS).is_err());
    assert_eq!(table.len(), 1);
}

#[test]
fn login_twice_returns_the_same_token() {
    let user = account(7, "secret");
    let mut table = SessionTable::new();
    let first = table.login(Some(&user), &"secret".to_string(), 5000, "fresh-1".to_string()).unwrap();
    let second = table.login(Some(&user), &"secret".to_string(), 5001, "fresh-2".to_string()).unwrap();
    assert_eq!(first, "fresh-1");
    assert_eq!(second, first);
    assert_eq!(table.len(), 1);
}

#[test]
fn sign_in_twice_returns_the_same_token() {
    let user = account(8, "pw");
    let mut table = SessionTable::new();
    let first = table.sign_in(Some(&user), &"pw".to_string(), 10).unwrap();
    let second = table.sign_in(Some(&user), &"pw".to_string(), 11).unwrap();
    assert_eq!(first.len(), 72);
    assert_eq!(first, second);
}

#[test]
fn bad_credentials_are_one_error() {
    let user = account(3, "right");
    let mut table = SessionTable::new();
    assert_eq!(
        table.login(Some(&user), &"wrong".to_string(), 1, "t".to_string()),
        Err(Failure::Auth(AuthError::BadCredentials))
    );
    assert_eq!(table.login(None, &"right".to_string(), 1, "t".to_string()), Err(Failure::Auth(AuthError::BadCredentials)));
    assert_eq!(table.len(), 0);
}

#[test]
fn a_fresh_token_already_held_is_refused() {
    let mut table = SessionTable::new();
    table.issue(1, 0, "same".to_string()).unwrap();
    assert_eq!(table.issue(2, 0, "same".to_string()), Err(Failure::Internal));
    assert_eq!(table.len(), 1);
}

#[test]
fn revoke_rejects_every_token_of_the_user() {
    let mut table = SessionTable::new();
    let a = table.issue(1, 0, "a".to_string()).unwrap();
    let b = table.issue(2, 0, "b".to_string()).unwrap();
    table.revoke(1);
    assert_eq!(table.validate(&a, 1), Err(AuthError::InvalidOrExpiredToken));
    assert_eq!(table.validate(&b, 1), Ok(2));
    assert!(!table.contains_token(&a));
}

#[test]
fn stored_rows_must_be_one_per_user_and_token() {
    let row = |user_id: i32, token: &str| Session {
        user_id,
        token: token.to_string(),
        issued_at: 0,
        expires_at: 100,
    };
    assert!(SessionTable::from_rows(vec![row(1, "a"), row(2, "b")]).is_some());
    assert!(SessionTable::from_rows(vec![row(1, "a"), row(1, "b")]).is_none());
    assert!(SessionTable::from_rows(vec![row(1, "a"), row(2, "a")]).is_none());
    let table = SessionTable::from_rows(vec![row(4, "x")]).unwrap();
    assert_eq!(table.validate(&"x".to_string(), 99), Ok(4));
    assert_eq!(table.rows().len(), 1);
}

#[test]
fn login_reply_round_trips() {
    let reply = LoginReply { token: "abc".to_string(), role: "Admin".to_string() };
    let bytes = reply.encode();
    assert_eq!(bytes, vec![3, b'a', b'b', b'c', 5, b'A', b'd', b'm', b'i', b'n']);
    let back = LoginReply::decode(&bytes).unwrap();
    assert_eq!(back.token, "abc");
    assert_eq!(back.role, "Admin");
}

#[test]
fn sign_in_reports_the_session_it_adds() {
    let user = account(9, "pw");
    let mut table = SessionTable::new();
    let (t1, added) = table.sign_in_reporting(Some(&user), &"pw".to_string(), 100).unwrap();
    let s = added.unwrap();
    assert_eq!(s.token, t1);
    assert_eq!(s.user_id, 9);
    assert_eq!(s.expires_at, 100 + SESSION_SECONDS);
    let (t2, again) = table.sign_in_reporting(Some(&user), &"pw".to_string(), 200).unwrap();
    assert_eq!(t2, t1);
    assert!(again.is_none());
}
