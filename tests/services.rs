use casework::beneficiary::{creation_statement, creation_statement_with_nonces};
use casework::credentials::{user_by_name_statement, users_list_statement, UserRecord};
use casework::error::{AuthError, Failure};
use casework::principal::Principal;
use casework::policy::{Operation, Resource, Variant};
use casework::role::Role;
use casework::seal::SealingKey;
use casework::stats::{series_statement, stats_reply, Series, SeriesRow};
use casework::text::text_less_eq;
use casework::value::Value;

const KEY_B64: &str = "AAECAwQFBgcICQoLDA0ODxAREhMUFRYXGBkaGxwdHh8=";

#[test]
fn sealing_key_needs_32_canonical_bytes() {
    assert!(SealingKey::from_base64(&KEY_B64.to_string()).is_some());
    assert!(SealingKey::from_base64(&"AAEC".to_string()).is_none());
    assert!(SealingKey::from_base64(&"not base64!".to_string()).is_none());
}

#[test]
fn sealed_text_is_nonce_colon_ciphertext() {
    let key = SealingKey::from_base64(&KEY_B64.to_string()).unwrap();
    let nonce = vec![0u8; 12];
    let sealed = key.encrypt_with_nonce(&nonce, b"").unwrap();
    let (n, c) = sealed.split_once(':').unwrap();
    assert_eq!(n, "AAAAAAAAAAAAAAAA");
    assert_eq!(c.len(), 24);
    let again = key.encrypt_with_nonce(&nonce, b"").unwrap();
    assert_eq!(sealed, again);
    let other = key.encrypt_with_nonce(&nonce, b"x").unwrap();
    assert_ne!(other, sealed);
    assert_ne!(other.split_once(':').unwrap().1, "eA==");
}

#[test]
fn random_nonces_differ() {
    let key = SealingKey::from_base64(&KEY_B64.to_string()).unwrap();
    let a = key.encrypt(b"same").unwrap();
    let b = key.encrypt(b"same").unwrap();
    assert_ne!(a, b);
    assert_eq!(a.split_once(':').unwrap().0.len(), 16);
}

#[test]
fn creation_seals_four_empty_fields() {
    let key = SealingKey::from_base64(&KEY_B64.to_string()).unwrap();
    let st = creation_statement(Role::User, &key).unwrap();
    assert_eq!(st.sql, "INSERT INTO Beneficiary (Email, Phone, Address, PostalCode) VALUES (?, ?, ?, ?)");
    assert_eq!(st.params.len(), 4);
    for p in &st.params {
        match p {
            Value::Text(t) => {
                assert!(t.contains(':'));
                assert!(!t.is_empty());
            }
            _ => panic!("expected text"),
        }
    }
}

#[test]
fn passwords_are_checked_against_bcrypt_hashes() {
    let user = UserRecord { id: 1, username: "a".to_string(), password: bcrypt::hash("pw", 4).unwrap(), role: "User".to_string() };
    assert!(user.accepts_password(&"pw".to_string()));
    assert!(!user.accepts_password(&"PW".to_string()));
    let plain = UserRecord { id: 1, username: "a".to_string(), password: "pw".to_string(), role: "User".to_string() };
    assert!(!plain.accepts_password(&"pw".to_string()));
}

#[test]
fn account_writes_store_hashes() {
    let u = UserRecord { id: 3, username: "c".to_string(), password: "pw".to_string(), role: "TS".to_string() };
    let st = u.create_statement().unwrap();
    assert_eq!(st.sql, "INSERT INTO User (Username, Password, Role) VALUES (?, ?, ?)");
    match &st.params[1] {
        Value::Text(h) => {
            assert_ne!(h, "pw");
            assert!(bcrypt::verify("pw", h).unwrap());
        }
        _ => panic!("expected a hash"),
    }
    let up = u.update_statement().unwrap();
    assert_eq!(up.params.len(), 4);
    let keep = UserRecord { password: String::new(), ..u.clone() };
    let up2 = keep.update_statement().unwrap();
    assert_eq!(up2.sql, "UPDATE User SET Username = ?, Role = ? WHERE Id = ?");
    assert!(matches!(up2.params[2], Value::Int(3)));
    let del = u.delete_statements();
    assert_eq!(del[0].sql, "DELETE FROM UserSession WHERE UserId = ?");
    assert_eq!(del[1].sql, "DELETE FROM User WHERE Id = ?");
}

#[test]
fn user_queries_bind_their_arguments() {
    let st = users_list_statement(&"me".to_string());
    assert!(st.sql.ends_with("Username != ?"));
    assert!(matches!(&st.params[0], Value::Text(s) if s == "me"));
    let st = user_by_name_statement(&"bob".to_string());
    assert!(matches!(&st.params[0], Value::Text(s) if s == "bob"));
}

#[test]
fn principal_carries_the_stored_role() {
    let u = UserRecord { id: 1, username: "a".to_string(), password: String::new(), role: "Admin".to_string() };
    let p = Principal::of(&u);
    assert_eq!(p.role, Some(Role::Admin));
    assert_eq!(p.authorize(Resource::Stats, Operation::Read), Ok(Variant::ReadStats));
    let odd = UserRecord { role: "Root".to_string(), ..u };
    let q = Principal::of(&odd);
    assert_eq!(q.role, None);
    assert_eq!(q.authorize(Resource::Category, Operation::List), Err(AuthError::Forbidden));
}

#[test]
fn stats_are_for_elevated_roles_and_checked_for_shape() {
    let empty: Vec<Vec<SeriesRow>> = (0..11).map(|_| Vec::new()).collect();
    assert_eq!(stats_reply(Role::Ts, &empty), Err(Failure::Auth(AuthError::Forbidden)));
    assert_eq!(stats_reply(Role::Admin, &empty).unwrap(), vec![0u8; 11]);
    assert_eq!(stats_reply(Role::Dev, &vec![]), Err(Failure::Internal));
    let mut data = empty.clone();
    data[0].push(SeriesRow { date: "2024-01-01".to_string(), counts: vec![1, 2, 3] });
    let bytes = stats_reply(Role::Dev, &data).unwrap();
    assert_eq!(&bytes[..16], &[1, 10, b'2', b'0', b'2', b'4', b'-', b'0', b'1', b'-', b'0', b'1', 1, 2, 3, 0]);
    data[1].push(SeriesRow { date: "x".to_string(), counts: vec![1] });
    assert_eq!(stats_reply(Role::Dev, &data), Err(Failure::Internal));
}

#[test]
fn series_queries_read_oldest_first() {
    let st = series_statement(Series::Sexe);
    assert_eq!(st.sql, "SELECT DATE_FORMAT(Date, '%Y-%m-%d') AS Date, Male, Female, Other FROM Sexe ORDER BY Date ASC");
}

#[test]
fn text_order_is_by_character() {
    assert!(text_less_eq(&"a".to_string(), &"b".to_string()));
    assert!(text_less_eq(&"ab".to_string(), &"ab".to_string()));
    assert!(text_less_eq(&"ab".to_string(), &"abc".to_string()));
    assert!(!text_less_eq(&"abc".to_string(), &"ab".to_string()));
    assert!(!text_less_eq(&"b".to_string(), &"a".to_string()));
    assert!(text_less_eq(&"".to_string(), &"".to_string()));
}

#[test]
fn creation_with_given_nonces_is_exact() {
    let key = SealingKey::from_base64(&KEY_B64.to_string()).unwrap();
    let nonces = vec![vec![0u8; 12], vec![1u8; 12], vec![2u8; 12], vec![3u8; 12]];
    let st = creation_statement_with_nonces(Role::Ts, &key, &nonces).unwrap();
    for (i, p) in st.params.iter().enumerate() {
        match p {
            Value::Text(t) => assert_eq!(t, &key.encrypt_with_nonce(&nonces[i], b"").unwrap()),
            _ => panic!("expected text"),
        }
    }
    match &st.params[0] {
        Value::Text(t) => assert!(t.starts_with("AAAAAAAAAAAAAAAA:")),
        _ => panic!("expected text"),
    }
}

#[test]
fn account_statements_take_the_given_hash() {
    let u = UserRecord { id: 4, username: "d".to_string(), password: "pw".to_string(), role: "User".to_string() };
    let st = u.insert_statement_with_hash("$2b$04$hash".to_string());
    assert!(matches!(&st.params[1], Value::Text(h) if h == "$2b$04$hash"));
    let up = u.update_statement_with_hash("h2".to_string());
    assert_eq!(up.sql, "UPDATE User SET Username = ?, Password = ?, Role = ? WHERE Id = ?");
    assert!(matches!(&up.params[1], Value::Text(h) if h == "h2"));
    assert!(matches!(up.params[3], Value::Int(4)));
}

#[test]
fn stats_bundle_round_trips() {
    let mut data: Vec<Vec<SeriesRow>> = (0..11).map(|_| Vec::new()).collect();
    data[0].push(SeriesRow { date: "2024-01-01".to_string(), counts: vec![1, 2, 300] });
    data[9].push(SeriesRow { date: "2024-02-01".to_string(), counts: vec![4, 5, 6] });
    let bytes = stats_reply(Role::Admin, &data).unwrap();
    let back = casework::stats::decode_stats(&bytes).unwrap();
    assert_eq!(back.len(), 11);
    assert_eq!(back[0][0].counts, vec![1, 2, 300]);
    assert_eq!(back[9][0].date, "2024-02-01");
    assert!(back[1].is_empty());
    let mut longer = bytes.clone();
    longer.push(0);
    assert!(casework::stats::decode_stats(&longer).is_none());
}
