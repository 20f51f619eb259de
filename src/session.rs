//! The session manager: issues, reuses, checks and revokes bearer tokens.
//!
//! The table holds at most one session per user and never two sessions with
//! the same token. Issuing is one step on the table (reuse the live session,
//! or replace the user's session with a new one), so two logins cannot both
//! find no live session and both add one.
use vstd::prelude::*;
use crate::credentials::{UserRecord, bcrypt_accepts};
use crate::entropy::random_bytes;
use crate::error::{AuthError, Failure};
use crate::codec::{all_of_kinds, decode_records, decode_values, encode_value, encode_values, kinds_of, list_bytes, records_bytes, values_bytes, varint};
use crate::value::{Kind, Scalar, Value, clone_text, kind_of, scalar_kind, scalars};

verus! {

/// How long a session lives, in seconds.
pub const SESSION_SECONDS: u64 = 86400;

/// One session: `user_id` holds `token` from `issued_at` until just before
/// `expires_at` (seconds since the epoch).
#[derive(Debug)]
pub struct Session {
    pub user_id: i32,
    pub token: String,
    pub issued_at: u64,
    pub expires_at: u64,
}

impl Session {
    /// A copy of this session.
    pub fn copy(&self) -> (r: Session)
        ensures
            r == *self,
    {
        Session { user_id: self.user_id, token: clone_text(&self.token), issued_at: self.issued_at, expires_at: self.expires_at }
    }
}

/// A session is live at `now` while `now` is before its expiry.
pub open spec fn live_at(s: Session, now: u64) -> bool {
    now < s.expires_at
}

/// One session per user, one user per token.
pub open spec fn sessions_wf(rows: Seq<Session>) -> bool {
    &&& forall|i: int, j: int| 0 <= i < j < rows.len() ==> (#[trigger] rows[i]).user_id != (#[trigger] rows[j]).user_id
    &&& forall|i: int, j: int| 0 <= i < j < rows.len() ==> (#[trigger] rows[i]).token@ != (#[trigger] rows[j]).token@
}

/// Some session holds `token` and is live at `now`.
pub open spec fn accepts(rows: Seq<Session>, token: Seq<char>, now: u64) -> bool {
    exists|i: int| 0 <= i < rows.len() && (#[trigger] rows[i]).token@ == token && live_at(rows[i], now)
}

/// Some session holds `token`.
pub open spec fn holds_token(rows: Seq<Session>, token: Seq<char>) -> bool {
    exists|i: int| 0 <= i < rows.len() && (#[trigger] rows[i]).token@ == token
}

/// The user has a session that is live at `now`.
pub open spec fn has_live(rows: Seq<Session>, user_id: i32, now: u64) -> bool {
    exists|i: int| 0 <= i < rows.len() && (#[trigger] rows[i]).user_id == user_id && live_at(rows[i], now)
}

/// The sessions of every user but `user_id`.
pub open spec fn without_user(rows: Seq<Session>, user_id: i32) -> Seq<Session> {
    rows.filter(|s: Session| s.user_id != user_id)
}

/// The effect of issuing a token to `user_id` at `now`, with `fresh` drawn
/// for the case that a new session is needed: `rows` becomes `next`, and
/// `token` is returned.
pub open spec fn issued(rows: Seq<Session>, user_id: i32, now: u64, fresh: String, next: Seq<Session>, token: String) -> bool {
    if has_live(rows, user_id, now) {
        &&& next == rows
        &&& exists|i: int| 0 <= i < rows.len() && (#[trigger] rows[i]).user_id == user_id && token == rows[i].token
    } else {
        &&& token == fresh
        &&& next.len() >= 1
        &&& next.drop_last() == without_user(rows, user_id)
        &&& next.last() == (Session { user_id, token: fresh, issued_at: now, expires_at: (now + SESSION_SECONDS) as u64 })
    }
}

/// Relies on `uuid::Builder::from_random_bytes` and the hyphenated form of
/// the UUID it builds: 36 characters, whatever the sixteen bytes.
#[verifier::external_body]
fn uuid_text(bytes: &Vec<u8>) -> (r: String)
    requires
        bytes@.len() == 16,
    ensures
        r@.len() == 36,
{
    let mut a = [0u8; 16];
    a.copy_from_slice(bytes);
    uuid::Builder::from_random_bytes(a).into_uuid().hyphenated().to_string()
}

/// A fresh token: two random version-4 UUIDs, 244 random bits in all, or
/// `None` when the operating system gives no random bytes.
fn fresh_token() -> (r: Option<String>)
    ensures
        r matches Some(t) ==> t@.len() == 72,
{
    let b = match random_bytes(32) {
        Some(b) => b,
        None => return None,
    };
    let mut lo: Vec<u8> = Vec::new();
    let mut hi: Vec<u8> = Vec::new();
    let mut i: usize = 0;
    while i < 16
        invariant
            i <= 16,
            b@.len() == 32,
            lo@.len() == i,
            hi@.len() == i,
        decreases 16 - i,
    {
        lo.push(b[i]);
        hi.push(b[16 + i]);
        i = i + 1;
    }
    let mut t = uuid_text(&lo);
    let u = uuid_text(&hi);
    t.append(u.as_str());
    Some(t)
}

/// What a successful login returns: the token and the role of the user.
#[derive(Clone, Debug)]
pub struct LoginReply {
    pub token: String,
    pub role: String,
}

impl View for LoginReply {
    type V = Seq<Scalar>;

    /// The values of the record, in declaration order.
    open spec fn view(&self) -> Seq<Scalar> {
        seq![
            Scalar::Text(self.token@),
            Scalar::Text(self.role@),
        ]
    }
}

/// The values of each record of a list.
pub open spec fn login_reply_views(xs: Seq<LoginReply>) -> Seq<Seq<Scalar>> {
    xs.map_values(|x: LoginReply| x@)
}

/// The schema of a login reply: the kind of each value, in order.
pub open spec fn login_reply_kinds() -> Seq<Kind> {
    seq![Kind::Text, Kind::Text]
}

impl LoginReply {
    /// The values of the record, in declaration order.
    pub fn to_values(&self) -> (r: Vec<Value>)
        ensures
            scalars(r@) == self@,
    {
        let r = vec![
            Value::Text(clone_text(&self.token)),
            Value::Text(clone_text(&self.role)),
        ];
        proof {
            assert(scalars(r@) =~= self@);
        }
        r
    }

    /// The record whose values `vs` holds; `None` when their kinds differ
    /// from the schema.
    pub fn from_values(vs: &Vec<Value>) -> (r: Option<LoginReply>)
        ensures
            kinds_of(scalars(vs@)) == login_reply_kinds() ==> r is Some,
            r matches Some(x) ==> x@ == scalars(vs@),
    {
        if vs.len() != 2 {
            proof {
                assert(kinds_of(scalars(vs@)).len() != login_reply_kinds().len());
            }
            return None;
        }
        proof {
            if kinds_of(scalars(vs@)) == login_reply_kinds() {
                assert forall|i: int| 0 <= i < 2 implies kind_of(#[trigger] vs@[i]) == login_reply_kinds()[i] by {
                    assert(kinds_of(scalars(vs@))[i] == scalar_kind(vs@[i]@));
                }
            }
        }
        let token = match &vs[0] {
            Value::Text(s) => clone_text(s),
            _ => return None,
        };
        let role = match &vs[1] {
            Value::Text(s) => clone_text(s),
            _ => return None,
        };
        let r = LoginReply { token, role };
        proof {
            assert(r@ =~= scalars(vs@));
        }
        Some(r)
    }

    /// The encoding of the record.
    pub fn encode(&self) -> (r: Vec<u8>)
        ensures
            r@ == values_bytes(self@),
    {
        encode_values(&self.to_values())
    }

    /// The encoding of a list of records: their count, then each record.
    pub fn encode_list(items: &Vec<LoginReply>) -> (r: Vec<u8>)
        ensures
            r@ == list_bytes(login_reply_views(items@)),
    {
        let mut out: Vec<u8> = Vec::new();
        encode_value(&Value::Size(items.len() as u64), &mut out);
        let ghost views = login_reply_views(items@);
        let mut i: usize = 0;
        while i < items.len()
            invariant
                i <= items@.len(),
                views == login_reply_views(items@),
                out@ == varint(items@.len() as nat) + records_bytes(views.take(i as int)),
            decreases items@.len() - i,
        {
            let mut b = items[i].encode();
            out.append(&mut b);
            proof {
                assert(views.take(i + 1).drop_last() =~= views.take(i as int));
                assert(views.take(i + 1).last() == items@[i as int]@);
            }
            i = i + 1;
        }
        proof {
            assert(views.take(items@.len() as int) =~= views);
        }
        out
    }

    /// Decodes a record that fills `bytes` exactly: the encoding of any
    /// record decodes to an equal record, and input with bytes left over
    /// after a record is refused.
    pub fn decode(bytes: &Vec<u8>) -> (r: Option<LoginReply>)
        ensures
            forall|x: LoginReply| bytes@ == #[trigger] values_bytes(x@) ==> r is Some && (r->0)@ == x@,
    {
        let kinds = vec![Kind::Text, Kind::Text];
        proof {
            assert(kinds@ =~= login_reply_kinds());
            assert forall|x: LoginReply| bytes@ == #[trigger] values_bytes(x@) implies
                kinds_of(x@) == kinds@ && bytes@.skip(0) == values_bytes(x@) + Seq::<u8>::empty() by {
                assert(kinds_of(x@) =~= kinds@);
                assert(bytes@.skip(0) =~= values_bytes(x@) + Seq::<u8>::empty());
            }
        }
        match decode_values(bytes, 0, &kinds) {
            Some((vs, end)) => {
                if end != bytes.len() {
                    return None;
                }
                proof {
                    assert forall|x: LoginReply| bytes@ == #[trigger] values_bytes(x@) implies
                        kinds_of(scalars(vs@)) == login_reply_kinds() by {
                        assert(kinds_of(x@) =~= kinds@);
                    }
                }
                LoginReply::from_values(&vs)
            },
            None => None,
        }
    }
}

/// Issuing a token to `user_id` at `now` turns `rows` into `next` and
/// returns `token`, for some fresh token drawn for the case that a new
/// session is needed.
pub open spec fn issued_some(rows: Seq<Session>, user_id: i32, now: u64, next: Seq<Session>, token: String) -> bool {
    exists|fresh: String| issued(rows, user_id, now, fresh, next, token)
}

/// The session store.
pub struct SessionTable {
    rows: Vec<Session>,
}

impl View for SessionTable {
    type V = Seq<Session>;

    closed spec fn view(&self) -> Seq<Session> {
        self.rows@
    }
}

impl SessionTable {
    pub open spec fn wf(&self) -> bool {
        sessions_wf(self@)
    }

    /// An empty table.
    pub fn new() -> (r: SessionTable)
        ensures
            r.wf(),
            r@.len() == 0,
    {
        SessionTable { rows: Vec::new() }
    }

    /// A table over sessions read from storage; `None` when two of them
    /// belong to one user or hold one token.
    pub fn from_rows(rows: Vec<Session>) -> (r: Option<SessionTable>)
        ensures
            r matches Some(t) ==> t.wf() && t@ == rows@,
            r is None <==> !sessions_wf(rows@),
    {
        let mut i: usize = 0;
        while i < rows.len()
            invariant
                i <= rows@.len(),
                forall|a: int, b: int| 0 <= a < b < rows@.len() && a < i ==> (#[trigger] rows@[a]).user_id != (#[trigger] rows@[b]).user_id
                    && rows@[a].token@ != rows@[b].token@,
            decreases rows@.len() - i,
        {
            let mut j: usize = i + 1;
            while j < rows.len()
                invariant
                    i < rows@.len(),
                    i + 1 <= j <= rows@.len(),
                    forall|a: int, b: int| 0 <= a < b < rows@.len() && a < i ==> (#[trigger] rows@[a]).user_id != (#[trigger] rows@[b]).user_id
                        && rows@[a].token@ != rows@[b].token@,
                    forall|b: int| i < b < j ==> rows@[i as int].user_id != (#[trigger] rows@[b]).user_id
                        && rows@[i as int].token@ != rows@[b].token@,
                decreases rows@.len() - j,
            {
                if rows[i].user_id == rows[j].user_id || rows[i].token == rows[j].token {
                    return None;
                }
                j = j + 1;
            }
            i = i + 1;
        }
        Some(SessionTable { rows })
    }

    /// The sessions held, in order.
    pub fn rows(&self) -> (r: &Vec<Session>)
        ensures
            r@ == self@,
    {
        &self.rows
    }

    /// The number of sessions held, live or not.
    pub fn len(&self) -> (r: usize)
        ensures
            r == self@.len(),
    {
        self.rows.len()
    }

    /// The position of the session that holds `token`, if any.
    fn find_token(&self, token: &String) -> (r: Option<usize>)
        ensures
            r matches Some(i) ==> i < self@.len() && self@[i as int].token@ == token@,
            r is None ==> !holds_token(self@, token@),
    {
        let mut i: usize = 0;
        while i < self.rows.len()
            invariant
                i <= self@.len(),
                forall|j: int| 0 <= j < i ==> (#[trigger] self@[j]).token@ != token@,
            decreases self@.len() - i,
        {
            if self.rows[i].token == *token {
                return Some(i);
            }
            i = i + 1;
        }
        None
    }

    /// The position of the session of `user_id`, if any.
    fn find_user(&self, user_id: i32) -> (r: Option<usize>)
        ensures
            r matches Some(i) ==> i < self@.len() && self@[i as int].user_id == user_id,
            r is None ==> forall|j: int| 0 <= j < self@.len() ==> (#[trigger] self@[j]).user_id != user_id,
    {
        let mut i: usize = 0;
        while i < self.rows.len()
            invariant
                i <= self@.len(),
                forall|j: int| 0 <= j < i ==> (#[trigger] self@[j]).user_id != user_id,
            decreases self@.len() - i,
        {
            if self.rows[i].user_id == user_id {
                return Some(i);
            }
            i = i + 1;
        }
        None
    }

    /// Whether some session, live or not, holds `token`.
    pub fn contains_token(&self, token: &String) -> (r: bool)
        ensures
            r == holds_token(self@, token@),
    {
        self.find_token(token).is_some()
    }

    /// The user that a token authenticates at `now`. A token that no session
    /// holds and a token whose session has expired give the same error.
    /// Nothing changes, whatever the outcome.
    pub fn validate(&self, token: &String, now: u64) -> (r: Result<i32, AuthError>)
        requires
            self.wf(),
        ensures
            r is Ok <==> accepts(self@, token@, now),
            r is Err ==> r == Err::<i32, AuthError>(AuthError::InvalidOrExpiredToken),
            r matches Ok(u) ==> exists|i: int| 0 <= i < self@.len() && (#[trigger] self@[i]).token@ == token@
                && live_at(self@[i], now) && self@[i].user_id == u,
    {
        match self.find_token(token) {
            Some(i) => {
                proof {
                    assert forall|j: int| 0 <= j < self@.len() && (#[trigger] self@[j]).token@ == token@ implies j == i by {
                        if j < i {
                            assert(self@[j].token@ != self@[i as int].token@);
                        } else if j > i {
                            assert(self@[i as int].token@ != self@[j].token@);
                        }
                    }
                }
                if now < self.rows[i].expires_at {
                    Ok(self.rows[i].user_id)
                } else {
                    Err(AuthError::InvalidOrExpiredToken)
                }
            },
            None => Err(AuthError::InvalidOrExpiredToken),
        }
    }

    /// Deletes every session of `user_id`.
    pub fn revoke(&mut self, user_id: i32)
        requires
            old(self).wf(),
        ensures
            final(self).wf(),
            final(self)@ == without_user(old(self)@, user_id),
    {
        let ghost all = self.rows@;
        let mut kept: Vec<Session> = Vec::new();
        let mut i: usize = 0;
        while i < self.rows.len()
            invariant
                all == self.rows@,
                i <= all.len(),
                kept@ == without_user(all.take(i as int), user_id),
            decreases all.len() - i,
        {
            proof {
                assert(all.take(i + 1).drop_last() =~= all.take(i as int));
                assert(all.take(i + 1).last() == all[i as int]);
                reveal_with_fuel(Seq::filter, 1);
            }
            if self.rows[i].user_id != user_id {
                kept.push(self.rows[i].copy());
            }
            i = i + 1;
        }
        proof {
            assert(all.take(all.len() as int) =~= all);
            lemma_without_user_wf(all, user_id);
        }
        self.rows = kept;
    }

    /// Issues a token to `user_id` at `now`. A live session of the user is
    /// reused; otherwise the user's expired session, if any, is replaced by a
    /// new one that holds `fresh` for `SESSION_SECONDS`. A `fresh` token that
    /// some session already holds is refused as an internal conflict, with
    /// nothing changed.
    pub fn issue(&mut self, user_id: i32, now: u64, fresh: String) -> (r: Result<String, Failure>)
        requires
            old(self).wf(),
            now <= u64::MAX - SESSION_SECONDS,
        ensures
            final(self).wf(),
            r is Err ==> r == Err::<String, Failure>(Failure::Internal) && *final(self) == *old(self),
            r is Err <==> !has_live(old(self)@, user_id, now) && holds_token(old(self)@, fresh@),
            r matches Ok(t) ==> issued(old(self)@, user_id, now, fresh, final(self)@, t),
    {
        match self.find_user(user_id) {
            Some(i) => {
                if now < self.rows[i].expires_at {
                    proof {
                        assert forall|j: int| 0 <= j < self@.len() && (#[trigger] self@[j]).user_id == user_id implies j == i by {
                            if j < i {
                                assert(self@[j].user_id != self@[i as int].user_id);
                            } else if j > i {
                                assert(self@[i as int].user_id != self@[j].user_id);
                            }
                        }
                    }
                    return Ok(clone_text(&self.rows[i].token));
                }
                proof {
                    assert forall|j: int| 0 <= j < self@.len() && (#[trigger] self@[j]).user_id == user_id implies !live_at(self@[j], now) by {
                        if j < i {
                            assert(self@[j].user_id != self@[i as int].user_id);
                        } else if j > i {
                            assert(self@[i as int].user_id != self@[j].user_id);
                        }
                    }
                }
            },
            None => {},
        }
        if self.contains_token(&fresh) {
            return Err(Failure::Internal);
        }
        let ghost before = self@;
        self.revoke(user_id);
        proof {
            lemma_without_user_absent(before, user_id);
            lemma_without_user_tokens(before, user_id, fresh@);
        }
        let ghost mid = self@;
        self.rows.push(Session { user_id, token: clone_text(&fresh), issued_at: now, expires_at: now + SESSION_SECONDS });
        proof {
            assert(self@.drop_last() =~= mid);
            assert forall|i: int, j: int| 0 <= i < j < self@.len() implies (#[trigger] self@[i]).user_id != (#[trigger] self@[j]).user_id by {
                if j == self@.len() - 1 {
                    assert(mid[i].user_id != user_id);
                }
            }
            assert forall|i: int, j: int| 0 <= i < j < self@.len() implies (#[trigger] self@[i]).token@ != (#[trigger] self@[j]).token@ by {
                if j == self@.len() - 1 {
                    assert(mid[i].token@ != fresh@);
                }
            }
        }
        Ok(fresh)
    }

    /// Logs a user in: checks `password` against the account found for the
    /// username (`None` when there is none), then issues a token as `issue`
    /// does. An unknown username and a wrong password give the same error,
    /// and change nothing.
    pub fn login(&mut self, account: Option<&UserRecord>, password: &String, now: u64, fresh: String) -> (r: Result<String, Failure>)
        requires
            old(self).wf(),
            now <= u64::MAX - SESSION_SECONDS,
        ensures
            final(self).wf(),
            account is None ==> r == Err::<String, Failure>(Failure::Auth(AuthError::BadCredentials)) && *final(self) == *old(self),
            account matches Some(u) ==> {
                &&& !bcrypt_accepts(password@, u.password@) ==> r == Err::<String, Failure>(Failure::Auth(AuthError::BadCredentials))
                    && *final(self) == *old(self)
                &&& bcrypt_accepts(password@, u.password@) ==> {
                    &&& r is Err ==> r == Err::<String, Failure>(Failure::Internal) && *final(self) == *old(self)
                    &&& r is Err <==> !has_live(old(self)@, u.id, now) && holds_token(old(self)@, fresh@)
                    &&& r matches Ok(t) ==> issued(old(self)@, u.id, now, fresh, final(self)@, t)
                }
            },
    {
        match account {
            None => Err(Failure::Auth(AuthError::BadCredentials)),
            Some(u) => {
                if !u.accepts_password(password) {
                    return Err(Failure::Auth(AuthError::BadCredentials));
                }
                self.issue(u.id, now, fresh)
            },
        }
    }

    /// Logs a user in as `login` does, with a freshly drawn token for the
    /// case that a new session is needed.
    pub fn sign_in(&mut self, account: Option<&UserRecord>, password: &String, now: u64) -> (r: Result<String, Failure>)
        requires
            old(self).wf(),
            now <= u64::MAX - SESSION_SECONDS,
        ensures
            final(self).wf(),
            account is None ==> r == Err::<String, Failure>(Failure::Auth(AuthError::BadCredentials)) && *final(self) == *old(self),
            account matches Some(u) ==> {
                &&& !bcrypt_accepts(password@, u.password@) ==> r == Err::<String, Failure>(Failure::Auth(AuthError::BadCredentials))
                    && *final(self) == *old(self)
                &&& bcrypt_accepts(password@, u.password@) ==> {
                    &&& r is Err ==> r == Err::<String, Failure>(Failure::Internal) && *final(self) == *old(self)
                    &&& has_live(old(self)@, u.id, now) ==> r is Ok
                    &&& r matches Ok(t) ==> issued_some(old(self)@, u.id, now, final(self)@, t)
                }
            },
    {
        match self.sign_in_reporting(account, password, now) {
            Ok((t, _)) => Ok(t),
            Err(e) => Err(e),
        }
    }

    /// Logs a user in as `sign_in` does, and also returns the session it
    /// added, if it added one: exactly when the user had no live session.
    /// That session is the one storage must now hold for the user.
    pub fn sign_in_reporting(&mut self, account: Option<&UserRecord>, password: &String, now: u64) -> (r: Result<(String, Option<Session>), Failure>)
        requires
            old(self).wf(),
            now <= u64::MAX - SESSION_SECONDS,
        ensures
            final(self).wf(),
            account is None ==> r == Err::<(String, Option<Session>), Failure>(Failure::Auth(AuthError::BadCredentials)) && *final(self) == *old(self),
            account matches Some(u) ==> {
                &&& !bcrypt_accepts(password@, u.password@) ==> r == Err::<(String, Option<Session>), Failure>(Failure::Auth(AuthError::BadCredentials))
                    && *final(self) == *old(self)
                &&& bcrypt_accepts(password@, u.password@) ==> {
                    &&& r is Err ==> r == Err::<(String, Option<Session>), Failure>(Failure::Internal) && *final(self) == *old(self)
                    &&& has_live(old(self)@, u.id, now) ==> r is Ok
                    &&& r matches Ok((t, added)) ==> {
                        &&& issued_some(old(self)@, u.id, now, final(self)@, t)
                        &&& (added is Some <==> !has_live(old(self)@, u.id, now))
                        &&& added matches Some(s) ==> final(self)@.len() > 0 && s == final(self)@.last() && s.token == t
                    }
                }
            },
    {
        match account {
            None => Err(Failure::Auth(AuthError::BadCredentials)),
            Some(u) => {
                if !u.accepts_password(password) {
                    return Err(Failure::Auth(AuthError::BadCredentials));
                }
                self.sign_in_checked(u.id, now)
            },
        }
    }

    /// Issues a token to a user whose password was checked, drawing a fresh
    /// token only when the user has no live session. Failing to draw one is
    /// an internal fault that changes nothing.
    fn sign_in_checked(&mut self, user_id: i32, now: u64) -> (r: Result<(String, Option<Session>), Failure>)
        requires
            old(self).wf(),
            now <= u64::MAX - SESSION_SECONDS,
        ensures
            final(self).wf(),
            r is Err ==> r == Err::<(String, Option<Session>), Failure>(Failure::Internal) && *final(self) == *old(self),
            has_live(old(self)@, user_id, now) ==> r is Ok,
            r matches Ok((t, added)) ==> {
                &&& issued_some(old(self)@, user_id, now, final(self)@, t)
                &&& (added is Some <==> !has_live(old(self)@, user_id, now))
                &&& added matches Some(s) ==> final(self)@.len() > 0 && s == final(self)@.last() && s.token == t
            },
    {
        match self.live_token(user_id, now) {
            Some(t) => {
                proof {
                    assert(issued(self@, user_id, now, t, self@, t));
                    assert(issued_some(old(self)@, user_id, now, self@, t));
                }
                Ok((t, None))
            },
            None => match fresh_token() {
                Some(fresh) => {
                    match self.issue(user_id, now, fresh) {
                        Ok(t) => {
                            proof {
                                assert(issued(old(self)@, user_id, now, fresh, self@, t));
                                assert(issued_some(old(self)@, user_id, now, self@, t));
                            }
                            let last = self.rows[self.rows.len() - 1].copy();
                            Ok((t, Some(last)))
                        },
                        Err(e) => Err(e),
                    }
                },
                None => Err(Failure::Internal),
            },
        }
    }

    /// The token of the user's session that is live at `now`, if any.
    fn live_token(&self, user_id: i32, now: u64) -> (r: Option<String>)
        requires
            self.wf(),
        ensures
            r is Some <==> has_live(self@, user_id, now),
            r matches Some(t) ==> exists|i: int| 0 <= i < self@.len() && (#[trigger] self@[i]).user_id == user_id && t == self@[i].token,
    {
        match self.find_user(user_id) {
            Some(i) => {
                proof {
                    assert forall|j: int| 0 <= j < self@.len() && (#[trigger] self@[j]).user_id == user_id implies j == i by {
                        if j < i {
                            assert(self@[j].user_id != self@[i as int].user_id);
                        } else if j > i {
                            assert(self@[i as int].user_id != self@[j].user_id);
                        }
                    }
                }
                if now < self.rows[i].expires_at {
                    Some(clone_text(&self.rows[i].token))
                } else {
                    None
                }
            },
            None => None,
        }
    }
}

/// A token is accepted exactly while the session that holds it is live:
/// before its expiry it is accepted, from its expiry on it is not.
pub proof fn lemma_accepted_iff_live(rows: Seq<Session>, i: int, now: u64)
    requires
        sessions_wf(rows),
        0 <= i < rows.len(),
    ensures
        accepts(rows, rows[i].token@, now) <==> now < rows[i].expires_at,
{
    if accepts(rows, rows[i].token@, now) {
        let j = choose|j: int| 0 <= j < rows.len() && (#[trigger] rows[j]).token@ == rows[i].token@ && live_at(rows[j], now);
        if j != i {
            if j < i {
                assert(rows[j].token@ != rows[i].token@);
            } else {
                assert(rows[i].token@ != rows[j].token@);
            }
        }
    }
}

/// A token that no session holds is never accepted.
pub proof fn lemma_unknown_token_rejected(rows: Seq<Session>, token: Seq<char>, now: u64)
    requires
        !holds_token(rows, token),
    ensures
        !accepts(rows, token, now),
{
}

/// Acceptance is monotonic in time: a token accepted at `later` is accepted
/// at every `earlier` time, so once rejected for expiry it stays rejected.
pub proof fn lemma_acceptance_monotone(rows: Seq<Session>, token: Seq<char>, earlier: u64, later: u64)
    requires
        earlier <= later,
    ensures
        accepts(rows, token, later) ==> accepts(rows, token, earlier),
{
    if accepts(rows, token, later) {
        let j = choose|j: int| 0 <= j < rows.len() && (#[trigger] rows[j]).token@ == token && live_at(rows[j], later);
        assert(live_at(rows[j], earlier));
    }
}

/// Revoking a user's sessions rejects every token those sessions held, at
/// any time.
pub proof fn lemma_revoked_tokens_rejected(rows: Seq<Session>, user_id: i32, i: int, now: u64)
    requires
        sessions_wf(rows),
        0 <= i < rows.len(),
        rows[i].user_id == user_id,
    ensures
        !accepts(without_user(rows, user_id), rows[i].token@, now),
{
    let f = without_user(rows, user_id);
    assert forall|k: int| 0 <= k < f.len() implies (#[trigger] f[k]).token@ != rows[i].token@ by {
        assert(f.contains(f[k]));
        rows.lemma_filter_contains_rev(|s: Session| s.user_id != user_id, f[k]);
        rows.lemma_filter_pred(|s: Session| s.user_id != user_id, k);
        let m = choose|m: int| 0 <= m < rows.len() && rows[m] == f[k];
        if m < i {
            assert(rows[m].token@ != rows[i].token@);
        } else if m > i {
            assert(rows[i].token@ != rows[m].token@);
        }
    }
}

/// Two logins of one user, the second made before the token returned by the
/// first expires, return the same token, and the second changes nothing.
pub proof fn lemma_second_login_reuses(
    rows: Seq<Session>,
    user_id: i32,
    now1: u64,
    fresh1: String,
    mid: Seq<Session>,
    token1: String,
    now2: u64,
    fresh2: String,
    next: Seq<Session>,
    token2: String,
)
    requires
        sessions_wf(rows),
        sessions_wf(mid),
        issued(rows, user_id, now1, fresh1, mid, token1),
        accepts(mid, token1@, now2),
        issued(mid, user_id, now2, fresh2, next, token2),
    ensures
        token2 == token1,
        next == mid,
{
    let i: int = if has_live(rows, user_id, now1) {
        choose|i: int| 0 <= i < rows.len() && (#[trigger] rows[i]).user_id == user_id && token1 == rows[i].token
    } else {
        mid.len() - 1
    };
    assert(0 <= i < mid.len() && mid[i].user_id == user_id && mid[i].token == token1);
    lemma_accepted_iff_live(mid, i, now2);
    assert(has_live(mid, user_id, now2));
    let k = choose|k: int| 0 <= k < mid.len() && (#[trigger] mid[k]).user_id == user_id && token2 == mid[k].token;
    if k < i {
        assert(mid[k].user_id != mid[i].user_id);
    } else if k > i {
        assert(mid[i].user_id != mid[k].user_id);
    }
}

proof fn lemma_without_user_absent(rows: Seq<Session>, user_id: i32)
    ensures
        forall|i: int| 0 <= i < without_user(rows, user_id).len() ==> (#[trigger] without_user(rows, user_id)[i]).user_id != user_id,
{
    assert forall|i: int| 0 <= i < without_user(rows, user_id).len() implies (#[trigger] without_user(rows, user_id)[i]).user_id != user_id by {
        rows.lemma_filter_pred(|s: Session| s.user_id != user_id, i);
    }
}

proof fn lemma_without_user_tokens(rows: Seq<Session>, user_id: i32, token: Seq<char>)
    requires
        !holds_token(rows, token),
    ensures
        forall|i: int| 0 <= i < without_user(rows, user_id).len() ==> (#[trigger] without_user(rows, user_id)[i]).token@ != token,
{
    assert forall|i: int| 0 <= i < without_user(rows, user_id).len() implies (#[trigger] without_user(rows, user_id)[i]).token@ != token by {
        let s = without_user(rows, user_id)[i];
        assert(without_user(rows, user_id).contains(s));
        rows.lemma_filter_contains_rev(|s: Session| s.user_id != user_id, s);
    }
}

/// Removing a user's sessions keeps the table well formed.
proof fn lemma_without_user_wf(rows: Seq<Session>, user_id: i32)
    requires
        sessions_wf(rows),
    ensures
        sessions_wf(without_user(rows, user_id)),
    decreases rows.len(),
{
    reveal_with_fuel(Seq::filter, 1);
    if rows.len() > 0 {
        let init = rows.drop_last();
        assert(sessions_wf(init)) by {
            assert forall|i: int, j: int| 0 <= i < j < init.len() implies (#[trigger] init[i]).user_id != (#[trigger] init[j]).user_id by {
                assert(init[i] == rows[i] && init[j] == rows[j]);
            }
            assert forall|i: int, j: int| 0 <= i < j < init.len() implies (#[trigger] init[i]).token@ != (#[trigger] init[j]).token@ by {
                assert(init[i] == rows[i] && init[j] == rows[j]);
            }
        }
        lemma_without_user_wf(init, user_id);
        let f = without_user(init, user_id);
        if rows.last().user_id != user_id {
            let g = f.push(rows.last());
            assert(without_user(rows, user_id) == g);
            assert forall|k: int| 0 <= k < f.len() implies (#[trigger] f[k]).user_id != rows.last().user_id
                && f[k].token@ != rows.last().token@ by {
                assert(f.contains(f[k]));
                init.lemma_filter_contains_rev(|s: Session| s.user_id != user_id, f[k]);
                let m = choose|m: int| 0 <= m < init.len() && init[m] == f[k];
                assert(rows[m] == f[k]);
                assert(rows[m].user_id != rows[rows.len() - 1].user_id);
                assert(rows[m].token@ != rows[rows.len() - 1].token@);
            }
            assert forall|i: int, j: int| 0 <= i < j < g.len() implies (#[trigger] g[i]).user_id != (#[trigger] g[j]).user_id by {
                if j == g.len() - 1 {
                    assert(g[i] == f[i]);
                }
            }
            assert forall|i: int, j: int| 0 <= i < j < g.len() implies (#[trigger] g[i]).token@ != (#[trigger] g[j]).token@ by {
                if j == g.len() - 1 {
                    assert(g[i] == f[i]);
                }
            }
        }
    }
}

impl LoginReply {
    /// Decodes a list of records that fills `bytes` exactly: the encoding of
    /// any list decodes to an equal list.
    pub fn decode_list(bytes: &Vec<u8>) -> (r: Option<Vec<LoginReply>>)
        ensures
            forall|xs: Seq<LoginReply>| bytes@ == #[trigger] list_bytes(login_reply_views(xs)) ==> r is Some
                && login_reply_views((r->0)@) == login_reply_views(xs),
    {
        let kinds = vec![Kind::Text, Kind::Text];
        proof {
            assert(kinds@ =~= login_reply_kinds());
            assert forall|xs: Seq<LoginReply>| bytes@ == #[trigger] list_bytes(login_reply_views(xs)) implies
                all_of_kinds(login_reply_views(xs), kinds@) by {
                assert forall|i: int| 0 <= i < xs.len() implies kinds_of(#[trigger] login_reply_views(xs)[i]) == kinds@ by {
                    assert(kinds_of(xs[i]@) =~= kinds@);
                }
            }
        }
        let recs = match decode_records(bytes, &kinds) {
            Some(recs) => recs,
            None => return None,
        };
        let mut out: Vec<LoginReply> = Vec::new();
        let mut i: usize = 0;
        while i < recs.len()
            invariant
                i <= recs@.len(),
                kinds@ == login_reply_kinds(),
                out@.len() == i,
                forall|j: int| 0 <= j < i ==> (#[trigger] out@[j])@ == scalars(recs@[j]@),
                forall|xs: Seq<LoginReply>| bytes@ == #[trigger] list_bytes(login_reply_views(xs)) ==> {
                    &&& recs@.len() == xs.len()
                    &&& forall|j: int| 0 <= j < xs.len() ==> scalars((#[trigger] recs@[j])@) == login_reply_views(xs)[j]
                },
            decreases recs@.len() - i,
        {
            match LoginReply::from_values(&recs[i]) {
                Some(x) => out.push(x),
                None => {
                    proof {
                        assert forall|xs: Seq<LoginReply>| bytes@ == #[trigger] list_bytes(login_reply_views(xs)) implies false by {
                            assert(scalars(recs@[i as int]@) == xs[i as int]@);
                            assert(kinds_of(xs[i as int]@) =~= login_reply_kinds());
                        }
                    }
                    return None;
                },
            }
            i = i + 1;
        }
        proof {
            assert forall|xs: Seq<LoginReply>| bytes@ == #[trigger] list_bytes(login_reply_views(xs)) implies
                login_reply_views(out@) == login_reply_views(xs) by {
                assert(login_reply_views(out@) =~= login_reply_views(xs));
            }
        }
        Some(out)
    }
}

} // verus!
