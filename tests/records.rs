use casework::beneficiary::{
    detail_statement, list_statement, search_statement, update_statement, Beneficiary, Column,
};
use casework::category::{categories_reply, Category};
use casework::credentials::UserRecord;
use casework::details::{compose_beneficiary, read_beneficiary, sort_presences, filter_notes, Allergy, Note, Presence};
use casework::error::{Failure, StorageError};
use casework::policy::Projection;
use casework::role::Role;
use casework::value::Value;

fn sample(id: i32, birth: Option<String>) -> Beneficiary {
    Beneficiary {
        id,
        first_name: "Ana".to_string(),
        last_name: "Diaz".to_string(),
        email: "a@b.com".to_string(),
        phone: "555-0100".to_string(),
        address: "1 Main St".to_string(),
        postal_code: "J3L 1A1".to_string(),
        kid: 2,
        adult: 1,
        monthly_amount: 12.5f64.to_bits(),
        weekly_amount: 3.0f64.to_bits(),
        category: 4,
        monthly_limit: 100.0f64.to_bits(),
        weekly_limit: 25.0f64.to_bits(),
        birth,
        last_presence: "2024-01-02".to_string(),
        sexe: "F".to_string(),
        language: "French".to_string(),
        origin: "European".to_string(),
        city: "Chambly".to_string(),
        study: "College".to_string(),
        income: "Income_1_14999".to_string(),
        family_situation: "Single".to_string(),
        is_active: true,
        is_sdf: false,
        is_employed: true,
        has_allergies: true,
        has_general_note: false,
    }
}

fn note(kind: i8, text: &str) -> Note {
    Note { beneficiary_id: 7, date: "2024-03-01 10:00:00".to_string(), kind, text: text.to_string() }
}

fn presence(date: &str) -> Presence {
    Presence { beneficiary_id: 7, date: date.to_string() }
}

#[test]
fn user_read_omits_email_and_restricted_notes() {
    let stored = sample(7, None);
    let notes = vec![note(0, "public"), note(1, "internal")];
    let (b, d) = compose_beneficiary(Role::User, 7, &stored, vec![], vec![], notes).unwrap();
    assert_eq!(b.id, 7);
    assert_eq!(b.email, "");
    assert_eq!(b.phone, "");
    assert_eq!(b.income, "");
    assert_eq!(b.first_name, "Ana");
    assert_eq!(d.notes.len(), 1);
    assert_eq!(d.notes[0].text, "public");
    assert!(d.notes.iter().all(|n| n.kind != 1));
}

#[test]
fn admin_read_includes_email_and_restricted_notes() {
    let stored = sample(7, None);
    for role in [Role::Admin, Role::Dev] {
        let (b, d) = compose_beneficiary(role, 7, &stored, vec![], vec![], vec![note(0, "public"), note(1, "internal")]).unwrap();
        assert_eq!(b.email, "a@b.com");
        assert_eq!(b.phone, "555-0100");
        assert_eq!(b.income, "Income_1_14999");
        assert_eq!(b.study, "");
        assert_eq!(d.notes.len(), 2);
        assert_eq!(d.notes[1].text, "internal");
    }
}

#[test]
fn ts_notes_exclude_type_one_but_keep_others() {
    let kept = filter_notes(vec![note(0, "a"), note(1, "b"), note(2, "c")], Projection::Full, 7);
    let texts: Vec<&str> = kept.iter().map(|n| n.text.as_str()).collect();
    assert_eq!(texts, vec!["a", "c"]);
    let basic = filter_notes(vec![note(0, "a"), note(1, "b"), note(2, "c")], Projection::Basic, 7);
    assert_eq!(basic.len(), 1);
}

#[test]
fn presences_come_out_ascending() {
    let input = vec![
        presence("2024-05-01 09:00:00"),
        presence("2023-12-31 23:59:59"),
        presence("2024-01-15 08:30:00"),
        presence("2024-01-15 08:30:00"),
    ];
    let sorted = sort_presences(input);
    let dates: Vec<&str> = sorted.iter().map(|p| p.date.as_str()).collect();
    assert_eq!(
        dates,
        vec!["2023-12-31 23:59:59", "2024-01-15 08:30:00", "2024-01-15 08:30:00", "2024-05-01 09:00:00"]
    );
    assert!(sort_presences(vec![]).is_empty());
}

#[test]
fn composite_fetch_sorts_presences_whatever_the_insertion_order() {
    let stored = sample(7, None);
    let (_, d) = compose_beneficiary(
        Role::Ts,
        7,
        &stored,
        vec![presence("b"), presence("c"), presence("a")],
        vec![Allergy { beneficiary_id: 7, allergy: "nuts".to_string() }],
        vec![],
    )
    .unwrap();
    let dates: Vec<&str> = d.presences.iter().map(|p| p.date.as_str()).collect();
    assert_eq!(dates, vec!["a", "b", "c"]);
    assert_eq!(d.allergies[0].allergy, "nuts");
    assert_eq!(d.id, 7);
}

#[test]
fn beneficiary_round_trips_with_and_without_birth() {
    for birth in [None, Some("1990-04-05".to_string())] {
        let b = sample(42, birth.clone());
        let bytes = b.encode();
        let back = Beneficiary::decode(&bytes).unwrap();
        assert_eq!(back.id, 42);
        assert_eq!(back.birth, birth);
        assert_eq!(back.email, b.email);
        assert_eq!(back.monthly_amount, b.monthly_amount);
        assert_eq!(f64::from_bits(back.weekly_limit), 25.0);
        assert_eq!(back.family_situation, b.family_situation);
        assert_eq!(back.is_employed, true);
        assert_eq!(back.has_general_note, false);
        assert_eq!(back.kid, 2);
    }
}

#[test]
fn empty_beneficiary_round_trips() {
    let mut b = sample(-3, None);
    b.first_name = String::new();
    b.email = String::new();
    b.monthly_amount = 0;
    let back = Beneficiary::decode(&b.encode()).unwrap();
    assert_eq!(back.id, -3);
    assert_eq!(back.first_name, "");
    assert_eq!(back.email, "");
    assert_eq!(back.monthly_amount, 0);
}

#[test]
fn presence_encoding_is_exact() {
    let p = Presence { beneficiary_id: 1, date: "ab".to_string() };
    assert_eq!(p.encode(), vec![2, 2, b'a', b'b']);
    let n = Presence { beneficiary_id: -1, date: String::new() };
    assert_eq!(n.encode(), vec![1, 0]);
    let big = Presence { beneficiary_id: 300, date: String::new() };
    assert_eq!(big.encode(), vec![251, 0x58, 0x02, 0]);
    let list = Presence::encode_list(&vec![p, n]);
    assert_eq!(list, vec![2, 2, 2, b'a', b'b', 1, 0]);
}

#[test]
fn note_and_category_round_trip() {
    let n = Note { beneficiary_id: 9, date: "2024-01-01 00:00:00".to_string(), kind: -1, text: "été".to_string() };
    let back = Note::decode(&n.encode()).unwrap();
    assert_eq!(back.kind, -1);
    assert_eq!(back.text, "été");
    let c = Category { id: 1, name: "A".to_string(), monthly_fee: 50.0f32.to_bits(), weekly_fee: 12.5f32.to_bits(), used_by: 70000 };
    let bytes = c.encode();
    assert_eq!(&bytes[0..3], &[2, 1, b'A']);
    assert_eq!(&bytes[3..7], &50.0f32.to_le_bytes());
    let back = Category::decode(&bytes).unwrap();
    assert_eq!(back.used_by, 70000);
    assert_eq!(f32::from_bits(back.weekly_fee), 12.5);
}

#[test]
fn truncated_bytes_do_not_decode() {
    let p = Presence { beneficiary_id: 1, date: "abc".to_string() };
    let mut bytes = p.encode();
    bytes.pop();
    assert!(Presence::decode(&bytes).is_none());
    assert!(Beneficiary::decode(&vec![]).is_none());
}

#[test]
fn user_record_round_trips_and_redacts() {
    let u = UserRecord { id: 5, username: "bob".to_string(), password: "hash".to_string(), role: "TS".to_string() };
    let r = u.redacted();
    assert_eq!(r.password, "");
    let back = UserRecord::decode(&r.encode()).unwrap();
    assert_eq!(back.username, "bob");
    assert_eq!(back.password, "");
    assert_eq!(back.role, "TS");
}

#[test]
fn categories_reply_needs_rows() {
    assert_eq!(categories_reply(&vec![]), Err(Failure::Storage(StorageError::NotFound)));
    let c = Category { id: 1, name: "A".to_string(), monthly_fee: 0, weekly_fee: 0, used_by: 0 };
    let bytes = categories_reply(&vec![c]).unwrap();
    assert_eq!(bytes[0], 1);
}

#[test]
fn read_beneficiary_encodes_record_then_details() {
    let stored = sample(7, None);
    let bytes = read_beneficiary(Role::User, 7, &stored, vec![], vec![], vec![note(1, "x")]).unwrap();
    let (b, _) = compose_beneficiary(Role::User, 7, &stored, vec![], vec![], vec![]).unwrap();
    let head = b.encode();
    assert_eq!(&bytes[..head.len()], &head[..]);
    assert_eq!(&bytes[head.len()..], &[14, 0, 0, 0]);
}

#[test]
fn statements_follow_the_column_lists() {
    let s = list_statement(Projection::Basic);
    assert_eq!(
        s.sql,
        "SELECT Id, FirstName, LastName, Kid, Adult, DATE_FORMAT(Birth, '%Y-%m-%d') AS Birth, \
         DATE_FORMAT(LastPresence, '%Y-%m-%d') AS LastPresence, HasAllergies, HasGeneralNote \
         FROM Beneficiary WHERE IsActive = 1"
    );
    assert!(s.params.is_empty());
    let d = detail_statement(Projection::Extended, 9);
    assert!(d.sql.contains("Email, Phone"));
    assert!(d.sql.contains("Income, FamilySituation"));
    assert!(d.sql.ends_with(" FROM Beneficiary WHERE Id = ?"));
    assert!(matches!(d.params[..], [Value::Int(9)]));
    let basic = detail_statement(Projection::Basic, 9);
    assert!(!basic.sql.contains("Email"));
    let q = search_statement(Projection::Full, &"%an%".to_string());
    assert!(q.sql.ends_with("WHERE IsActive = 0 AND (FirstName LIKE ? OR LastName LIKE ?)"));
    assert_eq!(q.params.len(), 2);
}

#[test]
fn user_role_may_update_only_names_and_amounts() {
    let b = sample(11, None);
    let st = update_statement(Projection::Basic, &b);
    assert_eq!(
        st.sql,
        "UPDATE Beneficiary SET FirstName = ?, LastName = ?, MonthlyAmount = ?, WeeklyAmount = ? WHERE Id = ?"
    );
    assert_eq!(st.params.len(), 5);
    assert!(matches!(&st.params[0], Value::Text(s) if s == "Ana"));
    assert!(matches!(st.params[2], Value::Real(x) if x == 12.5f64.to_bits()));
    assert!(matches!(st.params[4], Value::Int(11)));
    let full = update_statement(Projection::Full, &b);
    assert_eq!(full.params.len(), 28);
    assert!(full.sql.contains("Income = ?"));
    let ext = update_statement(Projection::Extended, &b);
    assert!(!ext.sql.contains("Income"));
    assert_eq!(ext.params.len(), 23);
}

#[test]
fn projection_resets_hidden_columns() {
    let b = sample(1, Some("2000-01-01".to_string()));
    let cols = vec![Column::Id, Column::Email];
    let p = b.project(&cols);
    assert_eq!(p.id, 1);
    assert_eq!(p.email, "a@b.com");
    assert_eq!(p.first_name, "");
    assert_eq!(p.birth, None);
    assert_eq!(p.monthly_amount, 0);
    assert!(!p.is_active);
}

#[test]
fn lists_round_trip() {
    let list = vec![sample(1, None), sample(2, Some("1980-02-03".to_string()))];
    let bytes = Beneficiary::encode_list(&list);
    let back = Beneficiary::decode_list(&bytes).unwrap();
    assert_eq!(back.len(), 2);
    assert_eq!(back[0].id, 1);
    assert_eq!(back[1].birth, Some("1980-02-03".to_string()));
    let empty = Note::encode_list(&vec![]);
    assert_eq!(empty, vec![0]);
    assert_eq!(Note::decode_list(&empty).unwrap().len(), 0);
    let cats = vec![Category { id: 2, name: "B".to_string(), monthly_fee: 1, weekly_fee: 2, used_by: 3 }];
    let back = Category::decode_list(&Category::encode_list(&cats)).unwrap();
    assert_eq!(back[0].name, "B");
    assert_eq!(back[0].used_by, 3);
}

#[test]
fn list_with_a_huge_declared_count_does_not_decode() {
    assert!(Presence::decode_list(&vec![253, 255, 255, 255, 255, 255, 255, 255, 255]).is_none());
    assert!(Presence::decode_list(&vec![1, 2, 253, 255, 255, 255, 255, 255, 255, 255, 127]).is_none());
}

#[test]
fn write_authorization_keeps_the_role_columns() {
    let b = sample(5, None);
    let st = casework::beneficiary::authorize_update(Role::User, &b).unwrap();
    assert_eq!(st.params.len(), 5);
    assert!(!st.sql.contains("Email"));
    let ts = casework::beneficiary::authorize_update(Role::Ts, &b).unwrap();
    assert!(ts.sql.contains("Income = ?"));
}

#[test]
fn composite_fetch_keeps_only_rows_of_the_beneficiary() {
    let stored = sample(7, None);
    let mut stray = note(1, "internal");
    stray.beneficiary_id = 8;
    let other_visit = Presence { beneficiary_id: 8, date: "2020-01-01".to_string() };
    let (_, d) = compose_beneficiary(
        Role::Admin,
        7,
        &stored,
        vec![presence("b"), other_visit],
        vec![Allergy { beneficiary_id: 9, allergy: "x".to_string() }],
        vec![note(0, "mine"), stray],
    )
    .unwrap();
    assert_eq!(d.presences.len(), 1);
    assert!(d.allergies.is_empty());
    assert_eq!(d.notes.len(), 1);
    assert_eq!(d.notes[0].text, "mine");
    assert!(d.notes.iter().all(|n| n.text != "internal"));
}

#[test]
fn project_all_redacts_every_row() {
    let rows = vec![sample(1, None), sample(2, None)];
    let out = casework::beneficiary::project_all(&rows, &casework::beneficiary::list_columns_of(Projection::Basic));
    assert_eq!(out.len(), 2);
    assert!(out.iter().all(|b| b.email.is_empty() && b.phone.is_empty()));
    assert_eq!(out[1].id, 2);
}

#[test]
fn decoding_refuses_bytes_left_over() {
    let p = Presence { beneficiary_id: 1, date: "ab".to_string() };
    let mut bytes = p.encode();
    bytes.push(0);
    assert!(Presence::decode(&bytes).is_none());
    let mut list = Presence::encode_list(&vec![p]);
    list.push(0);
    assert!(Presence::decode_list(&list).is_none());
}

#[test]
fn composite_payload_round_trips() {
    let stored = sample(7, Some("1999-09-09".to_string()));
    let bytes = read_beneficiary(
        Role::Ts,
        7,
        &stored,
        vec![presence("2024-02-01"), presence("2024-01-01")],
        vec![Allergy { beneficiary_id: 7, allergy: "nuts".to_string() }],
        vec![note(2, "kept"), note(1, "hidden")],
    )
    .unwrap();
    let (b, d) = casework::details::decode_full(&bytes).unwrap();
    assert_eq!(b.id, 7);
    assert_eq!(b.study, "College");
    assert_eq!(b.birth, Some("1999-09-09".to_string()));
    assert_eq!(d.id, 7);
    assert_eq!(d.presences[0].date, "2024-01-01");
    assert_eq!(d.allergies[0].allergy, "nuts");
    assert_eq!(d.notes.len(), 1);
    assert_eq!(d.notes[0].text, "kept");
    let mut longer = bytes.clone();
    longer.push(0);
    assert!(casework::details::decode_full(&longer).is_none());
}
