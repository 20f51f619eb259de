//! User accounts and the password primitive.
use vstd::prelude::*;
use crate::error::Failure;
use crate::sql::Statement;
use crate::codec::{all_of_kinds, decode_records, decode_values, encode_value, encode_values, kinds_of, list_bytes, records_bytes, values_bytes, varint};
use crate::value::{Kind, Scalar, Value, clone_text, kind_of, scalar_kind, scalars};

verus! {

/// Whether bcrypt accepts `password` against the stored `hash`.
pub uninterp spec fn bcrypt_accepts(password: Seq<char>, hash: Seq<char>) -> bool;

/// Relies on `bcrypt::verify`: the answer depends on the password and on the
/// hash, which carries its own cost and salt; a malformed hash is a mismatch.
#[verifier::external_body]
fn password_matches(password: &str, hash: &str) -> (r: bool)
    ensures
        r == bcrypt_accepts(password@, hash@),
{
    bcrypt::verify(password, hash).unwrap_or(false)
}

/// Relies on `bcrypt::hash` at `bcrypt::DEFAULT_COST`: the salt is drawn at
/// random, and `bcrypt::verify` accepts the password against the result.
#[verifier::external_body]
fn hash_password(password: &str) -> (r: Option<String>)
    ensures
        r matches Some(h) ==> bcrypt_accepts(password@, h@),
{
    bcrypt::hash(password, bcrypt::DEFAULT_COST).ok()
}

/// A user account. `password` holds the bcrypt hash when read from storage,
/// and the clear password when it comes from a create or update request.
#[derive(Clone, Debug)]
pub struct UserRecord {
    pub id: i32,
    pub username: String,
    pub password: String,
    pub role: String,
}

impl UserRecord {
    /// Whether `password` matches the stored hash of this account.
    pub fn accepts_password(&self, password: &String) -> (r: bool)
        ensures
            r == bcrypt_accepts(password@, self.password@),
    {
        password_matches(password.as_str(), self.password.as_str())
    }

    /// The account as read paths return it: without its password.
    pub fn redacted(&self) -> (r: UserRecord)
        ensures
            r.id == self.id,
            r.username == self.username,
            r.role == self.role,
            r.password@.len() == 0,
    {
        UserRecord {
            id: self.id,
            username: clone_text(&self.username),
            password: String::new(),
            role: clone_text(&self.role),
        }
    }

    /// The insert of a new account; the clear password of `self` is stored
    /// as a fresh bcrypt hash. Hashing failure is an internal error.
    pub fn create_statement(&self) -> (r: Result<Statement, Failure>)
        ensures
            r is Err ==> r == Err::<Statement, Failure>(Failure::Internal),
            r matches Ok(st) ==> {
                &&& st.sql@ == "INSERT INTO User (Username, Password, Role) VALUES (?, ?, ?)"@
                &&& st.params@.len() == 3
                &&& st.params@[0] == Value::Text(self.username)
                &&& st.params@[1] matches Value::Text(h) && bcrypt_accepts(self.password@, h@)
                &&& st.params@[2] == Value::Text(self.role)
            },
    {
        match hash_password(self.password.as_str()) {
            Some(h) => Ok(self.insert_statement_with_hash(h)),
            None => Err(Failure::Internal),
        }
    }

    /// The insert of this account with `hash` as its stored password.
    pub fn insert_statement_with_hash(&self, hash: String) -> (r: Statement)
        ensures
            r.sql@ == "INSERT INTO User (Username, Password, Role) VALUES (?, ?, ?)"@,
            r.params@ == seq![Value::Text(self.username), Value::Text(hash), Value::Text(self.role)],
    {
        Statement {
            sql: String::from_str("INSERT INTO User (Username, Password, Role) VALUES (?, ?, ?)"),
            params: vec![Value::Text(clone_text(&self.username)), Value::Text(hash), Value::Text(clone_text(&self.role))],
        }
    }

    /// The update of this account with `hash` as its new stored password.
    pub fn update_statement_with_hash(&self, hash: String) -> (r: Statement)
        ensures
            r.sql@ == "UPDATE User SET Username = ?, Password = ?, Role = ? WHERE Id = ?"@,
            r.params@ == seq![Value::Text(self.username), Value::Text(hash), Value::Text(self.role), Value::Int(self.id)],
    {
        Statement {
            sql: String::from_str("UPDATE User SET Username = ?, Password = ?, Role = ? WHERE Id = ?"),
            params: vec![
                Value::Text(clone_text(&self.username)),
                Value::Text(hash),
                Value::Text(clone_text(&self.role)),
                Value::Int(self.id),
            ],
        }
    }

    /// The update of an account. An empty password leaves the stored hash as
    /// it is; any other is stored as a fresh bcrypt hash.
    pub fn update_statement(&self) -> (r: Result<Statement, Failure>)
        ensures
            r is Err ==> r == Err::<Statement, Failure>(Failure::Internal) && self.password@.len() > 0,
            self.password@.len() == 0 ==> (r matches Ok(st) && {
                &&& st.sql@ == "UPDATE User SET Username = ?, Role = ? WHERE Id = ?"@
                &&& st.params@ == seq![Value::Text(self.username), Value::Text(self.role), Value::Int(self.id)]
            }),
            self.password@.len() > 0 ==> (r matches Ok(st) ==> {
                &&& st.sql@ == "UPDATE User SET Username = ?, Password = ?, Role = ? WHERE Id = ?"@
                &&& st.params@.len() == 4
                &&& st.params@[0] == Value::Text(self.username)
                &&& st.params@[1] matches Value::Text(h) && bcrypt_accepts(self.password@, h@)
                &&& st.params@[2] == Value::Text(self.role)
                &&& st.params@[3] == Value::Int(self.id)
            }),
    {
        if self.password.as_str().is_empty() {
            Ok(Statement {
                sql: String::from_str("UPDATE User SET Username = ?, Role = ? WHERE Id = ?"),
                params: vec![Value::Text(clone_text(&self.username)), Value::Text(clone_text(&self.role)), Value::Int(self.id)],
            })
        } else {
            match hash_password(self.password.as_str()) {
                Some(h) => Ok(self.update_statement_with_hash(h)),
                None => Err(Failure::Internal),
            }
        }
    }

    /// The deletion of an account: its sessions first, then the account.
    pub fn delete_statements(&self) -> (r: Vec<Statement>)
        ensures
            r@.len() == 2,
            r@[0].sql@ == "DELETE FROM UserSession WHERE UserId = ?"@,
            r@[0].params@ == seq![Value::Int(self.id)],
            r@[1].sql@ == "DELETE FROM User WHERE Id = ?"@,
            r@[1].params@ == seq![Value::Int(self.id)],
    {
        vec![
            Statement { sql: String::from_str("DELETE FROM UserSession WHERE UserId = ?"), params: vec![Value::Int(self.id)] },
            Statement { sql: String::from_str("DELETE FROM User WHERE Id = ?"), params: vec![Value::Int(self.id)] },
        ]
    }
}

/// The account with a given username.
pub fn user_by_name_statement(username: &String) -> (r: Statement)
    ensures
        r.sql@ == "SELECT Id, Username, Password, Role FROM User WHERE Username = ?"@,
        r.params@ == seq![Value::Text(*username)],
{
    Statement {
        sql: String::from_str("SELECT Id, Username, Password, Role FROM User WHERE Username = ?"),
        params: vec![Value::Text(clone_text(username))],
    }
}

/// The accounts that a requester may manage: neither developers, nor the
/// built-in administrator, nor the requester; passwords are not selected.
pub fn users_list_statement(requester: &String) -> (r: Statement)
    ensures
        r.sql@ == "SELECT Id, Username, '' AS Password, Role FROM User WHERE Role NOT LIKE 'Dev' AND Username != 'admin' AND Username != ?"@,
        r.params@ == seq![Value::Text(*requester)],
{
    Statement {
        sql: String::from_str("SELECT Id, Username, '' AS Password, Role FROM User WHERE Role NOT LIKE 'Dev' AND Username != 'admin' AND Username != ?"),
        params: vec![Value::Text(clone_text(requester))],
    }
}

impl View for UserRecord {
    type V = Seq<Scalar>;

    /// The values of the record, in declaration order.
    open spec fn view(&self) -> Seq<Scalar> {
        seq![
            Scalar::Int(self.id),
            Scalar::Text(self.username@),
            Scalar::Text(self.password@),
            Scalar::Text(self.role@),
        ]
    }
}

/// The values of each record of a list.
pub open spec fn user_record_views(xs: Seq<UserRecord>) -> Seq<Seq<Scalar>> {
    xs.map_values(|x: UserRecord| x@)
}

/// The schema of an account: the kind of each value, in order.
pub open spec fn user_record_kinds() -> Seq<Kind> {
    seq![Kind::Int, Kind::Text, Kind::Text, Kind::Text]
}

impl UserRecord {
    /// The values of the record, in declaration order.
    pub fn to_values(&self) -> (r: Vec<Value>)
        ensures
            scalars(r@) == self@,
    {
        let r = vec![
            Value::Int(self.id),
            Value::Text(clone_text(&self.username)),
            Value::Text(clone_text(&self.password)),
            Value::Text(clone_text(&self.role)),
        ];
        proof {
            assert(scalars(r@) =~= self@);
        }
        r
    }

    /// The record whose values `vs` holds; `None` when their kinds differ
    /// from the schema.
    pub fn from_values(vs: &Vec<Value>) -> (r: Option<UserRecord>)
        ensures
            kinds_of(scalars(vs@)) == user_record_kinds() ==> r is Some,
            r matches Some(x) ==> x@ == scalars(vs@),
    {
        if vs.len() != 4 {
            proof {
                assert(kinds_of(scalars(vs@)).len() != user_record_kinds().len());
            }
            return None;
        }
        proof {
            if kinds_of(scalars(vs@)) == user_record_kinds() {
                assert forall|i: int| 0 <= i < 4 implies kind_of(#[trigger] vs@[i]) == user_record_kinds()[i] by {
                    assert(kinds_of(scalars(vs@))[i] == scalar_kind(vs@[i]@));
                }
            }
        }
        let id = match &vs[0] {
            Value::Int(x) => *x,
            _ => return None,
        };
        let username = match &vs[1] {
            Value::Text(s) => clone_text(s),
            _ => return None,
        };
        let password = match &vs[2] {
            Value::Text(s) => clone_text(s),
            _ => return None,
        };
        let role = match &vs[3] {
            Value::Text(s) => clone_text(s),
            _ => return None,
        };
        let r = UserRecord { id, username, password, role };
        proof {
            assert(r@ =~= scalars(vs@));
        }
        Some(r)
    }

    /// The encoding of the record.
    pub fn encode(&self) -> (r: Vec<u8>)
        ensures
            r@ == values_bytes(self@),
    {
        encode_values(&self.to_values())
    }

    /// The encoding of a list of records: their count, then each record.
    pub fn encode_list(items: &Vec<UserRecord>) -> (r: Vec<u8>)
        ensures
            r@ == list_bytes(user_record_views(items@)),
    {
        let mut out: Vec<u8> = Vec::new();
        encode_value(&Value::Size(items.len() as u64), &mut out);
        let ghost views = user_record_views(items@);
        let mut i: usize = 0;
        while i < items.len()
            invariant
                i <= items@.len(),
                views == user_record_views(items@),
                out@ == varint(items@.len() as nat) + records_bytes(views.take(i as int)),
            decreases items@.len() - i,
        {
            let mut b = items[i].encode();
            out.append(&mut b);
            proof {
                assert(views.take(i + 1).drop_last() =~= views.take(i as int));
                assert(views.take(i + 1).last() == items@[i as int]@);
            }
            i = i + 1;
        }
        proof {
            assert(views.take(items@.len() as int) =~= views);
        }
        out
    }

    /// Decodes a record that fills `bytes` exactly: the encoding of any
    /// record decodes to an equal record, and input with bytes left over
    /// after a record is refused.
    pub fn decode(bytes: &Vec<u8>) -> (r: Option<UserRecord>)
        ensures
            forall|x: UserRecord| bytes@ == #[trigger] values_bytes(x@) ==> r is Some && (r->0)@ == x@,
    {
        let kinds = vec![Kind::Int, Kind::Text, Kind::Text, Kind::Text];
        proof {
            assert(kinds@ =~= user_record_kinds());
            assert forall|x: UserRecord| bytes@ == #[trigger] values_bytes(x@) implies
                kinds_of(x@) == kinds@ && bytes@.skip(0) == values_bytes(x@) + Seq::<u8>::empty() by {
                assert(kinds_of(x@) =~= kinds@);
                assert(bytes@.skip(0) =~= values_bytes(x@) + Seq::<u8>::empty());
            }
        }
        match decode_values(bytes, 0, &kinds) {
            Some((vs, end)) => {
                if end != bytes.len() {
                    return None;
                }
                proof {
                    assert forall|x: UserRecord| bytes@ == #[trigger] values_bytes(x@) implies
                        kinds_of(scalars(vs@)) == user_record_kinds() by {
                        assert(kinds_of(x@) =~= kinds@);
                    }
                }
                UserRecord::from_values(&vs)
            },
            None => None,
        }
    }
}

impl UserRecord {
    /// Decodes a list of records that fills `bytes` exactly: the encoding of
    /// any list decodes to an equal list.
    pub fn decode_list(bytes: &Vec<u8>) -> (r: Option<Vec<UserRecord>>)
        ensures
            forall|xs: Seq<UserRecord>| bytes@ == #[trigger] list_bytes(user_record_views(xs)) ==> r is Some
                && user_record_views((r->0)@) == user_record_views(xs),
    {
        let kinds = vec![Kind::Int, Kind::Text, Kind::Text, Kind::Text];
        proof {
            assert(kinds@ =~= user_record_kinds());
            assert forall|xs: Seq<UserRecord>| bytes@ == #[trigger] list_bytes(user_record_views(xs)) implies
                all_of_kinds(user_record_views(xs), kinds@) by {
                assert forall|i: int| 0 <= i < xs.len() implies kinds_of(#[trigger] user_record_views(xs)[i]) == kinds@ by {
                    assert(kinds_of(xs[i]@) =~= kinds@);
                }
            }
        }
        let recs = match decode_records(bytes, &kinds) {
            Some(recs) => recs,
            None => return None,
        };
        let mut out: Vec<UserRecord> = Vec::new();
        let mut i: usize = 0;
        while i < recs.len()
            invariant
                i <= recs@.len(),
                kinds@ == user_record_kinds(),
                out@.len() == i,
                forall|j: int| 0 <= j < i ==> (#[trigger] out@[j])@ == scalars(recs@[j]@),
                forall|xs: Seq<UserRecord>| bytes@ == #[trigger] list_bytes(user_record_views(xs)) ==> {
                    &&& recs@.len() == xs.len()
                    &&& forall|j: int| 0 <= j < xs.len() ==> scalars((#[trigger] recs@[j])@) == user_record_views(xs)[j]
                },
            decreases recs@.len() - i,
        {
            match UserRecord::from_values(&recs[i]) {
                Some(x) => out.push(x),
                None => {
                    proof {
                        assert forall|xs: Seq<UserRecord>| bytes@ == #[trigger] list_bytes(user_record_views(xs)) implies false by {
                            assert(scalars(recs@[i as int]@) == xs[i as int]@);
                            assert(kinds_of(xs[i as int]@) =~= user_record_kinds());
                        }
                    }
                    return None;
                },
            }
            i = i + 1;
        }
        proof {
            assert forall|xs: Seq<UserRecord>| bytes@ == #[trigger] list_bytes(user_record_views(xs)) implies
                user_record_views(out@) == user_record_views(xs) by {
                assert(user_record_views(out@) =~= user_record_views(xs));
            }
        }
        Some(out)
    }
}

} // verus!
