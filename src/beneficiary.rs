//! The beneficiary record, the column set of each query variant, and the
//! projection that a variant applies. The statement text and the projection
//! are both derived from the same column lists.
use vstd::prelude::*;
use crate::error::AuthError;
use crate::policy::{Operation, Projection, Resource, Variant, allowed, authorize, projection_of};
use crate::role::Role;
use crate::entropy::random_bytes;
use crate::seal::{SealingKey, sealed_text};
use crate::sql::{Statement, append_joined, joined};
use crate::codec::{all_of_kinds, decode_records, decode_values, encode_value, encode_values, kinds_of, list_bytes, records_bytes, values_bytes, varint};
use crate::error::Failure;
use crate::value::{Kind, Scalar, Value, clone_opt_text, clone_text, kind_of, opt_view, scalar_kind, scalars};

verus! {

/// A column of the beneficiary table.
#[derive(Clone, Copy, Debug, PartialEq, Eq, Structural)]
pub enum Column {
    Id,
    FirstName,
    LastName,
    Email,
    Phone,
    Address,
    PostalCode,
    Kid,
    Adult,
    MonthlyAmount,
    WeeklyAmount,
    Category,
    MonthlyLimit,
    WeeklyLimit,
    Birth,
    LastPresence,
    Sexe,
    Language,
    Origin,
    City,
    Study,
    Income,
    FamilySituation,
    IsActive,
    IsSdf,
    IsEmployed,
    HasAllergies,
    HasGeneralNote,
}

/// A beneficiary as stored. A column that a role may not read holds its
/// default value (zero, empty, `false`, `None`) in what that role receives.
/// Amounts and limits hold the bit pattern of a 64-bit float.
#[derive(Clone, Debug)]
pub struct Beneficiary {
    pub id: i32,
    pub first_name: String,
    pub last_name: String,
    pub email: String,
    pub phone: String,
    pub address: String,
    pub postal_code: String,
    pub kid: u8,
    pub adult: u8,
    pub monthly_amount: u64,
    pub weekly_amount: u64,
    pub category: i32,
    pub monthly_limit: u64,
    pub weekly_limit: u64,
    pub birth: Option<String>,
    pub last_presence: String,
    pub sexe: String,
    pub language: String,
    pub origin: String,
    pub city: String,
    pub study: String,
    pub income: String,
    pub family_situation: String,
    pub is_active: bool,
    pub is_sdf: bool,
    pub is_employed: bool,
    pub has_allergies: bool,
    pub has_general_note: bool,
}

/// Every column, in the declaration order of the record.
pub open spec fn all_columns() -> Seq<Column> {
    seq![Column::Id, Column::FirstName, Column::LastName, Column::Email, Column::Phone, Column::Address, Column::PostalCode, Column::Kid, Column::Adult, Column::MonthlyAmount, Column::WeeklyAmount, Column::Category, Column::MonthlyLimit, Column::WeeklyLimit, Column::Birth, Column::LastPresence, Column::Sexe, Column::Language, Column::Origin, Column::City, Column::Study, Column::Income, Column::FamilySituation, Column::IsActive, Column::IsSdf, Column::IsEmployed, Column::HasAllergies, Column::HasGeneralNote]
}

/// The columns of the beneficiary list of each projection.
pub open spec fn list_columns(p: Projection) -> Seq<Column> {
    match p {
        Projection::Basic => seq![Column::Id, Column::FirstName, Column::LastName, Column::Kid, Column::Adult, Column::Birth, Column::LastPresence, Column::HasAllergies, Column::HasGeneralNote],
        _ => seq![Column::Id, Column::FirstName, Column::LastName, Column::Email, Column::Phone, Column::Kid, Column::Adult, Column::Birth, Column::LastPresence, Column::IsActive, Column::HasAllergies, Column::HasGeneralNote],
    }
}

/// The columns of a single beneficiary read by each projection.
pub open spec fn detail_columns(p: Projection) -> Seq<Column> {
    match p {
        Projection::Basic => seq![Column::Id, Column::FirstName, Column::LastName, Column::Kid, Column::Adult, Column::MonthlyAmount, Column::WeeklyAmount, Column::Category, Column::MonthlyLimit, Column::WeeklyLimit, Column::Birth, Column::LastPresence, Column::Language, Column::IsActive, Column::HasAllergies, Column::HasGeneralNote],
        Projection::Extended => seq![Column::Id, Column::FirstName, Column::LastName, Column::Email, Column::Phone, Column::Address, Column::PostalCode, Column::Kid, Column::Adult, Column::MonthlyAmount, Column::WeeklyAmount, Column::Category, Column::MonthlyLimit, Column::WeeklyLimit, Column::Birth, Column::LastPresence, Column::Sexe, Column::Language, Column::Origin, Column::City, Column::Income, Column::FamilySituation, Column::IsActive, Column::HasAllergies, Column::HasGeneralNote],
        Projection::Full => seq![Column::Id, Column::FirstName, Column::LastName, Column::Email, Column::Phone, Column::Address, Column::PostalCode, Column::Kid, Column::Adult, Column::MonthlyAmount, Column::WeeklyAmount, Column::Category, Column::MonthlyLimit, Column::WeeklyLimit, Column::Birth, Column::LastPresence, Column::Sexe, Column::Language, Column::Origin, Column::City, Column::Study, Column::Income, Column::FamilySituation, Column::IsActive, Column::IsSdf, Column::IsEmployed, Column::HasAllergies, Column::HasGeneralNote],
    }
}

/// The columns that each projection may write.
pub open spec fn update_columns(p: Projection) -> Seq<Column> {
    match p {
        Projection::Basic => seq![Column::FirstName, Column::LastName, Column::MonthlyAmount, Column::WeeklyAmount],
        Projection::Extended => seq![Column::FirstName, Column::LastName, Column::Email, Column::Phone, Column::Address, Column::PostalCode, Column::Kid, Column::Adult, Column::MonthlyAmount, Column::WeeklyAmount, Column::Category, Column::MonthlyLimit, Column::WeeklyLimit, Column::Birth, Column::LastPresence, Column::Sexe, Column::Language, Column::Origin, Column::City, Column::IsActive, Column::HasAllergies, Column::HasGeneralNote],
        Projection::Full => seq![Column::FirstName, Column::LastName, Column::Email, Column::Phone, Column::Address, Column::PostalCode, Column::MonthlyAmount, Column::WeeklyAmount, Column::Category, Column::MonthlyLimit, Column::WeeklyLimit, Column::Kid, Column::Adult, Column::Birth, Column::LastPresence, Column::Sexe, Column::Language, Column::Origin, Column::City, Column::Study, Column::Income, Column::FamilySituation, Column::IsActive, Column::IsSdf, Column::IsEmployed, Column::HasAllergies, Column::HasGeneralNote],
    }
}

/// The basic projection reads neither email, nor phone, nor income.
pub proof fn lemma_basic_details_hide_contact()
    ensures
        !detail_columns(Projection::Basic).contains(Column::Email),
        !detail_columns(Projection::Basic).contains(Column::Phone),
        !detail_columns(Projection::Basic).contains(Column::Income),
{
    let cols = detail_columns(Projection::Basic);
    assert forall|i: int| 0 <= i < cols.len() implies cols[i] != Column::Email && cols[i] != Column::Phone
        && cols[i] != Column::Income by {}
}

/// The value of a column of a record.
pub open spec fn value_of(b: Beneficiary, c: Column) -> Value {
    match c {
        Column::Id => Value::Int(b.id),
        Column::FirstName => Value::Text(b.first_name),
        Column::LastName => Value::Text(b.last_name),
        Column::Email => Value::Text(b.email),
        Column::Phone => Value::Text(b.phone),
        Column::Address => Value::Text(b.address),
        Column::PostalCode => Value::Text(b.postal_code),
        Column::Kid => Value::Byte(b.kid),
        Column::Adult => Value::Byte(b.adult),
        Column::MonthlyAmount => Value::Real(b.monthly_amount),
        Column::WeeklyAmount => Value::Real(b.weekly_amount),
        Column::Category => Value::Int(b.category),
        Column::MonthlyLimit => Value::Real(b.monthly_limit),
        Column::WeeklyLimit => Value::Real(b.weekly_limit),
        Column::Birth => Value::MaybeText(b.birth),
        Column::LastPresence => Value::Text(b.last_presence),
        Column::Sexe => Value::Text(b.sexe),
        Column::Language => Value::Text(b.language),
        Column::Origin => Value::Text(b.origin),
        Column::City => Value::Text(b.city),
        Column::Study => Value::Text(b.study),
        Column::Income => Value::Text(b.income),
        Column::FamilySituation => Value::Text(b.family_situation),
        Column::IsActive => Value::Flag(b.is_active),
        Column::IsSdf => Value::Flag(b.is_sdf),
        Column::IsEmployed => Value::Flag(b.is_employed),
        Column::HasAllergies => Value::Flag(b.has_allergies),
        Column::HasGeneralNote => Value::Flag(b.has_general_note),
    }
}

/// `r` is the record `b` as a role with columns `cols` receives it: each
/// column outside `cols` holds its default.
pub open spec fn projected(r: Beneficiary, b: Beneficiary, cols: Seq<Column>) -> bool {
    &&& r.id == if cols.contains(Column::Id) { b.id } else { 0 }
    &&& if cols.contains(Column::FirstName) { r.first_name == b.first_name } else { r.first_name@.len() == 0 }
    &&& if cols.contains(Column::LastName) { r.last_name == b.last_name } else { r.last_name@.len() == 0 }
    &&& if cols.contains(Column::Email) { r.email == b.email } else { r.email@.len() == 0 }
    &&& if cols.contains(Column::Phone) { r.phone == b.phone } else { r.phone@.len() == 0 }
    &&& if cols.contains(Column::Address) { r.address == b.address } else { r.address@.len() == 0 }
    &&& if cols.contains(Column::PostalCode) { r.postal_code == b.postal_code } else { r.postal_code@.len() == 0 }
    &&& r.kid == if cols.contains(Column::Kid) { b.kid } else { 0 }
    &&& r.adult == if cols.contains(Column::Adult) { b.adult } else { 0 }
    &&& r.monthly_amount == if cols.contains(Column::MonthlyAmount) { b.monthly_amount } else { 0 }
    &&& r.weekly_amount == if cols.contains(Column::WeeklyAmount) { b.weekly_amount } else { 0 }
    &&& r.category == if cols.contains(Column::Category) { b.category } else { 0 }
    &&& r.monthly_limit == if cols.contains(Column::MonthlyLimit) { b.monthly_limit } else { 0 }
    &&& r.weekly_limit == if cols.contains(Column::WeeklyLimit) { b.weekly_limit } else { 0 }
    &&& r.birth == if cols.contains(Column::Birth) { b.birth } else { None }
    &&& if cols.contains(Column::LastPresence) { r.last_presence == b.last_presence } else { r.last_presence@.len() == 0 }
    &&& if cols.contains(Column::Sexe) { r.sexe == b.sexe } else { r.sexe@.len() == 0 }
    &&& if cols.contains(Column::Language) { r.language == b.language } else { r.language@.len() == 0 }
    &&& if cols.contains(Column::Origin) { r.origin == b.origin } else { r.origin@.len() == 0 }
    &&& if cols.contains(Column::City) { r.city == b.city } else { r.city@.len() == 0 }
    &&& if cols.contains(Column::Study) { r.study == b.study } else { r.study@.len() == 0 }
    &&& if cols.contains(Column::Income) { r.income == b.income } else { r.income@.len() == 0 }
    &&& if cols.contains(Column::FamilySituation) { r.family_situation == b.family_situation } else { r.family_situation@.len() == 0 }
    &&& r.is_active == if cols.contains(Column::IsActive) { b.is_active } else { false }
    &&& r.is_sdf == if cols.contains(Column::IsSdf) { b.is_sdf } else { false }
    &&& r.is_employed == if cols.contains(Column::IsEmployed) { b.is_employed } else { false }
    &&& r.has_allergies == if cols.contains(Column::HasAllergies) { b.has_allergies } else { false }
    &&& r.has_general_note == if cols.contains(Column::HasGeneralNote) { b.has_general_note } else { false }
}

/// The text that selects a column.
pub open spec fn select_expr(c: Column) -> Seq<char> {
    match c {
        Column::Birth => "DATE_FORMAT(Birth, '%Y-%m-%d') AS Birth"@,
        Column::LastPresence => "DATE_FORMAT(LastPresence, '%Y-%m-%d') AS LastPresence"@,
        _ => name_of(c),
    }
}

/// The name of a column.
pub open spec fn name_of(c: Column) -> Seq<char> {
    match c {
        Column::Id => "Id"@,
        Column::FirstName => "FirstName"@,
        Column::LastName => "LastName"@,
        Column::Email => "Email"@,
        Column::Phone => "Phone"@,
        Column::Address => "Address"@,
        Column::PostalCode => "PostalCode"@,
        Column::Kid => "Kid"@,
        Column::Adult => "Adult"@,
        Column::MonthlyAmount => "MonthlyAmount"@,
        Column::WeeklyAmount => "WeeklyAmount"@,
        Column::Category => "Category"@,
        Column::MonthlyLimit => "MonthlyLimit"@,
        Column::WeeklyLimit => "WeeklyLimit"@,
        Column::Birth => "Birth"@,
        Column::LastPresence => "LastPresence"@,
        Column::Sexe => "Sexe"@,
        Column::Language => "Language"@,
        Column::Origin => "Origin"@,
        Column::City => "City"@,
        Column::Study => "Study"@,
        Column::Income => "Income"@,
        Column::FamilySituation => "FamilySituation"@,
        Column::IsActive => "IsActive"@,
        Column::IsSdf => "IsSdf"@,
        Column::IsEmployed => "IsEmployed"@,
        Column::HasAllergies => "HasAllergies"@,
        Column::HasGeneralNote => "HasGeneralNote"@,
    }
}

/// The name of a column in statement text.
pub fn column_name(c: Column) -> (r: &'static str)
    ensures
        r@ == name_of(c),
{
    match c {
        Column::Id => "Id",
        Column::FirstName => "FirstName",
        Column::LastName => "LastName",
        Column::Email => "Email",
        Column::Phone => "Phone",
        Column::Address => "Address",
        Column::PostalCode => "PostalCode",
        Column::Kid => "Kid",
        Column::Adult => "Adult",
        Column::MonthlyAmount => "MonthlyAmount",
        Column::WeeklyAmount => "WeeklyAmount",
        Column::Category => "Category",
        Column::MonthlyLimit => "MonthlyLimit",
        Column::WeeklyLimit => "WeeklyLimit",
        Column::Birth => "Birth",
        Column::LastPresence => "LastPresence",
        Column::Sexe => "Sexe",
        Column::Language => "Language",
        Column::Origin => "Origin",
        Column::City => "City",
        Column::Study => "Study",
        Column::Income => "Income",
        Column::FamilySituation => "FamilySituation",
        Column::IsActive => "IsActive",
        Column::IsSdf => "IsSdf",
        Column::IsEmployed => "IsEmployed",
        Column::HasAllergies => "HasAllergies",
        Column::HasGeneralNote => "HasGeneralNote",
    }
}

/// The expression that selects a column; dates are formatted as text.
pub fn column_select(c: Column) -> (r: &'static str)
    ensures
        r@ == select_expr(c),
{
    match c {
        Column::Birth => "DATE_FORMAT(Birth, '%Y-%m-%d') AS Birth",
        Column::LastPresence => "DATE_FORMAT(LastPresence, '%Y-%m-%d') AS LastPresence",
        _ => column_name(c),
    }
}

/// The columns of `list_columns` for a projection.
pub fn list_columns_of(p: Projection) -> (r: Vec<Column>)
    ensures
        r@ == list_columns(p),
{
    match p {
        Projection::Basic => vec![Column::Id, Column::FirstName, Column::LastName, Column::Kid, Column::Adult, Column::Birth, Column::LastPresence, Column::HasAllergies, Column::HasGeneralNote],
        _ => vec![Column::Id, Column::FirstName, Column::LastName, Column::Email, Column::Phone, Column::Kid, Column::Adult, Column::Birth, Column::LastPresence, Column::IsActive, Column::HasAllergies, Column::HasGeneralNote],
    }
}

/// The columns of `detail_columns` for a projection.
pub fn detail_columns_of(p: Projection) -> (r: Vec<Column>)
    ensures
        r@ == detail_columns(p),
{
    match p {
        Projection::Basic => vec![Column::Id, Column::FirstName, Column::LastName, Column::Kid, Column::Adult, Column::MonthlyAmount, Column::WeeklyAmount, Column::Category, Column::MonthlyLimit, Column::WeeklyLimit, Column::Birth, Column::LastPresence, Column::Language, Column::IsActive, Column::HasAllergies, Column::HasGeneralNote],
        Projection::Extended => vec![Column::Id, Column::FirstName, Column::LastName, Column::Email, Column::Phone, Column::Address, Column::PostalCode, Column::Kid, Column::Adult, Column::MonthlyAmount, Column::WeeklyAmount, Column::Category, Column::MonthlyLimit, Column::WeeklyLimit, Column::Birth, Column::LastPresence, Column::Sexe, Column::Language, Column::Origin, Column::City, Column::Income, Column::FamilySituation, Column::IsActive, Column::HasAllergies, Column::HasGeneralNote],
        Projection::Full => vec![Column::Id, Column::FirstName, Column::LastName, Column::Email, Column::Phone, Column::Address, Column::PostalCode, Column::Kid, Column::Adult, Column::MonthlyAmount, Column::WeeklyAmount, Column::Category, Column::MonthlyLimit, Column::WeeklyLimit, Column::Birth, Column::LastPresence, Column::Sexe, Column::Language, Column::Origin, Column::City, Column::Study, Column::Income, Column::FamilySituation, Column::IsActive, Column::IsSdf, Column::IsEmployed, Column::HasAllergies, Column::HasGeneralNote],
    }
}

/// The columns of `update_columns` for a projection.
pub fn update_columns_of(p: Projection) -> (r: Vec<Column>)
    ensures
        r@ == update_columns(p),
{
    match p {
        Projection::Basic => vec![Column::FirstName, Column::LastName, Column::MonthlyAmount, Column::WeeklyAmount],
        Projection::Extended => vec![Column::FirstName, Column::LastName, Column::Email, Column::Phone, Column::Address, Column::PostalCode, Column::Kid, Column::Adult, Column::MonthlyAmount, Column::WeeklyAmount, Column::Category, Column::MonthlyLimit, Column::WeeklyLimit, Column::Birth, Column::LastPresence, Column::Sexe, Column::Language, Column::Origin, Column::City, Column::IsActive, Column::HasAllergies, Column::HasGeneralNote],
        Projection::Full => vec![Column::FirstName, Column::LastName, Column::Email, Column::Phone, Column::Address, Column::PostalCode, Column::MonthlyAmount, Column::WeeklyAmount, Column::Category, Column::MonthlyLimit, Column::WeeklyLimit, Column::Kid, Column::Adult, Column::Birth, Column::LastPresence, Column::Sexe, Column::Language, Column::Origin, Column::City, Column::Study, Column::Income, Column::FamilySituation, Column::IsActive, Column::IsSdf, Column::IsEmployed, Column::HasAllergies, Column::HasGeneralNote],
    }
}

/// Whether `cols` holds `c`.
pub fn has_column(cols: &Vec<Column>, c: Column) -> (r: bool)
    ensures
        r == cols@.contains(c),
{
    let mut i: usize = 0;
    while i < cols.len()
        invariant
            i <= cols.len(),
            forall|j: int| 0 <= j < i ==> cols@[j] != c,
        decreases cols.len() - i,
    {
        if cols[i] == c {
            return true;
        }
        i = i + 1;
    }
    false
}

/// The text that assigns a column in an update.
pub open spec fn assign_expr(c: Column) -> Seq<char> {
    match c {
        Column::Id => "Id = ?"@,
        Column::FirstName => "FirstName = ?"@,
        Column::LastName => "LastName = ?"@,
        Column::Email => "Email = ?"@,
        Column::Phone => "Phone = ?"@,
        Column::Address => "Address = ?"@,
        Column::PostalCode => "PostalCode = ?"@,
        Column::Kid => "Kid = ?"@,
        Column::Adult => "Adult = ?"@,
        Column::MonthlyAmount => "MonthlyAmount = ?"@,
        Column::WeeklyAmount => "WeeklyAmount = ?"@,
        Column::Category => "Category = ?"@,
        Column::MonthlyLimit => "MonthlyLimit = ?"@,
        Column::WeeklyLimit => "WeeklyLimit = ?"@,
        Column::Birth => "Birth = ?"@,
        Column::LastPresence => "LastPresence = ?"@,
        Column::Sexe => "Sexe = ?"@,
        Column::Language => "Language = ?"@,
        Column::Origin => "Origin = ?"@,
        Column::City => "City = ?"@,
        Column::Study => "Study = ?"@,
        Column::Income => "Income = ?"@,
        Column::FamilySituation => "FamilySituation = ?"@,
        Column::IsActive => "IsActive = ?"@,
        Column::IsSdf => "IsSdf = ?"@,
        Column::IsEmployed => "IsEmployed = ?"@,
        Column::HasAllergies => "HasAllergies = ?"@,
        Column::HasGeneralNote => "HasGeneralNote = ?"@,
    }
}

/// The text that assigns a column in an update.
pub fn column_assign(c: Column) -> (r: &'static str)
    ensures
        r@ == assign_expr(c),
{
    match c {
        Column::Id => "Id = ?",
        Column::FirstName => "FirstName = ?",
        Column::LastName => "LastName = ?",
        Column::Email => "Email = ?",
        Column::Phone => "Phone = ?",
        Column::Address => "Address = ?",
        Column::PostalCode => "PostalCode = ?",
        Column::Kid => "Kid = ?",
        Column::Adult => "Adult = ?",
        Column::MonthlyAmount => "MonthlyAmount = ?",
        Column::WeeklyAmount => "WeeklyAmount = ?",
        Column::Category => "Category = ?",
        Column::MonthlyLimit => "MonthlyLimit = ?",
        Column::WeeklyLimit => "WeeklyLimit = ?",
        Column::Birth => "Birth = ?",
        Column::LastPresence => "LastPresence = ?",
        Column::Sexe => "Sexe = ?",
        Column::Language => "Language = ?",
        Column::Origin => "Origin = ?",
        Column::City => "City = ?",
        Column::Study => "Study = ?",
        Column::Income => "Income = ?",
        Column::FamilySituation => "FamilySituation = ?",
        Column::IsActive => "IsActive = ?",
        Column::IsSdf => "IsSdf = ?",
        Column::IsEmployed => "IsEmployed = ?",
        Column::HasAllergies => "HasAllergies = ?",
        Column::HasGeneralNote => "HasGeneralNote = ?",
    }
}

/// The text of a select of `cols` from the beneficiary table.
pub open spec fn select_text(cols: Seq<Column>) -> Seq<char> {
    "SELECT "@ + joined(cols.map_values(|c: Column| select_expr(c)), ", "@) + " FROM Beneficiary"@
}

/// The text of an update of `cols` of one beneficiary.
pub open spec fn update_text(cols: Seq<Column>) -> Seq<char> {
    "UPDATE Beneficiary SET "@ + joined(cols.map_values(|c: Column| assign_expr(c)), ", "@)
        + " WHERE Id = ?"@
}

/// The select expressions of `cols` (`select` set) or their assignments.
fn column_texts(cols: &Vec<Column>, select: bool) -> (r: Vec<&'static str>)
    ensures
        select ==> r@.map_values(|p: &str| p@) == cols@.map_values(|c: Column| select_expr(c)),
        !select ==> r@.map_values(|p: &str| p@) == cols@.map_values(|c: Column| assign_expr(c)),
{
    let mut out: Vec<&'static str> = Vec::new();
    let mut i: usize = 0;
    while i < cols.len()
        invariant
            i <= cols.len(),
            out@.len() == i,
            forall|j: int| 0 <= j < i ==> (#[trigger] out@[j])@ == (if select { select_expr(cols@[j]) } else { assign_expr(cols@[j]) }),
        decreases cols.len() - i,
    {
        let t = if select { column_select(cols[i]) } else { column_assign(cols[i]) };
        out.push(t);
        i = i + 1;
    }
    proof {
        if select {
            assert(out@.map_values(|p: &str| p@) =~= cols@.map_values(|c: Column| select_expr(c)));
        } else {
            assert(out@.map_values(|p: &str| p@) =~= cols@.map_values(|c: Column| assign_expr(c)));
        }
    }
    out
}

/// The select text of `cols`, followed by `tail`.
fn select_of(cols: &Vec<Column>, tail: &str) -> (r: String)
    ensures
        r@ == select_text(cols@) + tail@,
{
    let mut s = String::from_str("SELECT ");
    append_joined(&mut s, &column_texts(cols, true), ", ");
    s.append(" FROM Beneficiary");
    s.append(tail);
    s
}

/// The list of active beneficiaries as projection `p` sees it.
pub fn list_statement(p: Projection) -> (r: Statement)
    ensures
        r.sql@ == select_text(list_columns(p)) + " WHERE IsActive = 1"@,
        r.params@.len() == 0,
{
    Statement { sql: select_of(&list_columns_of(p), " WHERE IsActive = 1"), params: Vec::new() }
}

/// One beneficiary, by id, as projection `p` sees it.
pub fn detail_statement(p: Projection, id: i32) -> (r: Statement)
    ensures
        r.sql@ == select_text(detail_columns(p)) + " WHERE Id = ?"@,
        r.params@ == seq![Value::Int(id)],
{
    Statement { sql: select_of(&detail_columns_of(p), " WHERE Id = ?"), params: vec![Value::Int(id)] }
}

/// The inactive beneficiaries whose first or last name matches `pattern`,
/// as projection `p` sees them. The pattern is bound, never spliced.
pub fn search_statement(p: Projection, pattern: &String) -> (r: Statement)
    ensures
        r.sql@ == select_text(detail_columns(p))
            + " WHERE IsActive = 0 AND (FirstName LIKE ? OR LastName LIKE ?)"@,
        r.params@ == seq![Value::Text(*pattern), Value::Text(*pattern)],
{
    Statement {
        sql: select_of(&detail_columns_of(p), " WHERE IsActive = 0 AND (FirstName LIKE ? OR LastName LIKE ?)"),
        params: vec![Value::Text(clone_text(pattern)), Value::Text(clone_text(pattern))],
    }
}

/// The update of `b` that projection `p` may make: only the columns of
/// `update_columns(p)` are written, and the row is chosen by `b.id`.
pub fn update_statement(p: Projection, b: &Beneficiary) -> (r: Statement)
    ensures
        r.sql@ == update_text(update_columns(p)),
        r.params@ == update_columns(p).map_values(|c: Column| value_of(*b, c)).push(Value::Int(b.id)),
{
    let cols = update_columns_of(p);
    let mut s = String::from_str("UPDATE Beneficiary SET ");
    append_joined(&mut s, &column_texts(&cols, false), ", ");
    s.append(" WHERE Id = ?");
    let mut params = b.values(&cols);
    params.push(Value::Int(b.id));
    Statement { sql: s, params }
}

/// Authorizes an update of `b` by `role` and keeps only what the role may
/// write: the statement writes the columns of the role's update variant,
/// whatever else `b` holds.
pub fn authorize_update(role: Role, b: &Beneficiary) -> (r: Result<Statement, AuthError>)
    ensures
        !allowed(role, Resource::Beneficiary, Operation::Update) ==> r == Err::<Statement, AuthError>(AuthError::Forbidden),
        allowed(role, Resource::Beneficiary, Operation::Update) ==> r is Ok,
        r matches Ok(st) ==> {
            &&& st.sql@ == update_text(update_columns(projection_of(role)))
            &&& st.params@ == update_columns(projection_of(role)).map_values(|c: Column| value_of(*b, c)).push(Value::Int(b.id))
        },
{
    match authorize(role, Resource::Beneficiary, Operation::Update) {
        Ok(Variant::UpdateBeneficiary(p)) => Ok(update_statement(p, b)),
        Ok(_) => Err(AuthError::Forbidden),
        Err(e) => Err(e),
    }
}

/// `v` is a text that seals the empty text under `key` with some nonce.
pub open spec fn sealed_empty(v: Value, key: Seq<u8>) -> bool {
    v matches Value::Text(t) && exists|n: Seq<u8>| n.len() == 12 && t@ == sealed_text(key, n, Seq::<u8>::empty())
}

/// `v` is the text that seals the empty text under `key` and `nonce`.
pub open spec fn sealed_empty_with(v: Value, key: Seq<u8>, nonce: Seq<u8>) -> bool {
    v matches Value::Text(t) && t@ == sealed_text(key, nonce, Seq::<u8>::empty())
}

/// The insert of a new, empty beneficiary for `role`, its email, phone,
/// address and postal code sealed with the four given 12-byte nonces, in
/// that order.
pub fn creation_statement_with_nonces(role: Role, key: &SealingKey, nonces: &Vec<Vec<u8>>) -> (r: Result<Statement, Failure>)
    requires
        key.wf(),
        nonces@.len() == 4,
        forall|i: int| 0 <= i < 4 ==> (#[trigger] nonces@[i])@.len() == 12,
    ensures
        !allowed(role, Resource::Beneficiary, Operation::Create) ==> r == Err::<Statement, Failure>(Failure::Auth(AuthError::Forbidden)),
        allowed(role, Resource::Beneficiary, Operation::Create) ==> r is Ok,
        r matches Ok(st) ==> {
            &&& st.sql@ == "INSERT INTO Beneficiary (Email, Phone, Address, PostalCode) VALUES (?, ?, ?, ?)"@
            &&& st.params@.len() == 4
            &&& forall|i: int| 0 <= i < 4 ==> sealed_empty_with(#[trigger] st.params@[i], key@, nonces@[i]@)
        },
{
    match authorize(role, Resource::Beneficiary, Operation::Create) {
        Ok(_) => {},
        Err(e) => return Err(Failure::Auth(e)),
    }
    let empty: Vec<u8> = Vec::new();
    let mut params: Vec<Value> = Vec::new();
    let mut i: usize = 0;
    while i < 4
        invariant
            i <= 4,
            empty@ == Seq::<u8>::empty(),
            key.wf(),
            nonces@.len() == 4,
            forall|j: int| 0 <= j < 4 ==> (#[trigger] nonces@[j])@.len() == 12,
            params@.len() == i,
            forall|j: int| 0 <= j < i ==> sealed_empty_with(#[trigger] params@[j], key@, nonces@[j]@),
        decreases 4 - i,
    {
        let t = match key.encrypt_with_nonce(&nonces[i], empty.as_slice()) {
            Ok(t) => t,
            Err(e) => return Err(e),
        };
        params.push(Value::Text(t));
        i = i + 1;
    }
    Ok(Statement { sql: String::from_str("INSERT INTO Beneficiary (Email, Phone, Address, PostalCode) VALUES (?, ?, ?, ?)"), params })
}

/// The insert of a new, empty beneficiary for `role`: its email, phone,
/// address and postal code are stored sealed, each with a fresh random
/// nonce. A failure to draw nonces is an internal fault.
pub fn creation_statement(role: Role, key: &SealingKey) -> (r: Result<Statement, Failure>)
    requires
        key.wf(),
    ensures
        !allowed(role, Resource::Beneficiary, Operation::Create) ==> r == Err::<Statement, Failure>(Failure::Auth(AuthError::Forbidden)),
        allowed(role, Resource::Beneficiary, Operation::Create) ==> (r is Err ==> r == Err::<Statement, Failure>(Failure::Internal)),
        r matches Ok(st) ==> {
            &&& st.sql@ == "INSERT INTO Beneficiary (Email, Phone, Address, PostalCode) VALUES (?, ?, ?, ?)"@
            &&& st.params@.len() == 4
            &&& forall|i: int| 0 <= i < 4 ==> sealed_empty(#[trigger] st.params@[i], key@)
        },
{
    match authorize(role, Resource::Beneficiary, Operation::Create) {
        Ok(_) => {},
        Err(e) => return Err(Failure::Auth(e)),
    }
    let mut nonces: Vec<Vec<u8>> = Vec::new();
    let mut i: usize = 0;
    while i < 4
        invariant
            i <= 4,
            nonces@.len() == i,
            forall|j: int| 0 <= j < i ==> (#[trigger] nonces@[j])@.len() == 12,
        decreases 4 - i,
    {
        match random_bytes(12) {
            Some(n) => nonces.push(n),
            None => return Err(Failure::Internal),
        }
        i = i + 1;
    }
    let r = creation_statement_with_nonces(role, key, &nonces);
    proof {
        if r is Ok {
            let st = r->Ok_0;
            assert forall|i: int| 0 <= i < 4 implies sealed_empty(#[trigger] st.params@[i], key@) by {
                assert(sealed_empty_with(st.params@[i], key@, nonces@[i]@));
                let n = nonces@[i]@;
                assert(n.len() == 12);
            }
        }
    }
    r
}

/// Each record of `rows` as a role with columns `cols` receives it.
pub fn project_all(rows: &Vec<Beneficiary>, cols: &Vec<Column>) -> (r: Vec<Beneficiary>)
    ensures
        r@.len() == rows@.len(),
        forall|i: int| 0 <= i < rows@.len() ==> projected(#[trigger] r@[i], rows@[i], cols@),
{
    let mut out: Vec<Beneficiary> = Vec::new();
    let mut i: usize = 0;
    while i < rows.len()
        invariant
            i <= rows@.len(),
            out@.len() == i,
            forall|j: int| 0 <= j < i ==> projected(#[trigger] out@[j], rows@[j], cols@),
        decreases rows@.len() - i,
    {
        out.push(rows[i].project(cols));
        i = i + 1;
    }
    out
}

impl Beneficiary {
    /// The value of one column.
    pub fn value(&self, c: Column) -> (r: Value)
        ensures
            r == value_of(*self, c),
    {
        match c {
            Column::Id => Value::Int(self.id),
            Column::FirstName => Value::Text(clone_text(&self.first_name)),
            Column::LastName => Value::Text(clone_text(&self.last_name)),
            Column::Email => Value::Text(clone_text(&self.email)),
            Column::Phone => Value::Text(clone_text(&self.phone)),
            Column::Address => Value::Text(clone_text(&self.address)),
            Column::PostalCode => Value::Text(clone_text(&self.postal_code)),
            Column::Kid => Value::Byte(self.kid),
            Column::Adult => Value::Byte(self.adult),
            Column::MonthlyAmount => Value::Real(self.monthly_amount),
            Column::WeeklyAmount => Value::Real(self.weekly_amount),
            Column::Category => Value::Int(self.category),
            Column::MonthlyLimit => Value::Real(self.monthly_limit),
            Column::WeeklyLimit => Value::Real(self.weekly_limit),
            Column::Birth => Value::MaybeText(clone_opt_text(&self.birth)),
            Column::LastPresence => Value::Text(clone_text(&self.last_presence)),
            Column::Sexe => Value::Text(clone_text(&self.sexe)),
            Column::Language => Value::Text(clone_text(&self.language)),
            Column::Origin => Value::Text(clone_text(&self.origin)),
            Column::City => Value::Text(clone_text(&self.city)),
            Column::Study => Value::Text(clone_text(&self.study)),
            Column::Income => Value::Text(clone_text(&self.income)),
            Column::FamilySituation => Value::Text(clone_text(&self.family_situation)),
            Column::IsActive => Value::Flag(self.is_active),
            Column::IsSdf => Value::Flag(self.is_sdf),
            Column::IsEmployed => Value::Flag(self.is_employed),
            Column::HasAllergies => Value::Flag(self.has_allergies),
            Column::HasGeneralNote => Value::Flag(self.has_general_note),
        }
    }

    /// The values of `cols`, in order.
    pub fn values(&self, cols: &Vec<Column>) -> (r: Vec<Value>)
        ensures
            r@ == cols@.map_values(|c: Column| value_of(*self, c)),
    {
        let mut out: Vec<Value> = Vec::new();
        let mut i: usize = 0;
        while i < cols.len()
            invariant
                i <= cols.len(),
                out@ == cols@.take(i as int).map_values(|c: Column| value_of(*self, c)),
            decreases cols.len() - i,
        {
            out.push(self.value(cols[i]));
            proof {
                assert(cols@.take(i as int + 1) =~= cols@.take(i as int).push(cols@[i as int]));
            }
            i = i + 1;
        }
        proof {
            assert(cols@.take(cols.len() as int) =~= cols@);
        }
        out
    }

    /// The record with every column outside `cols` reset to its default.
    pub fn project(&self, cols: &Vec<Column>) -> (r: Beneficiary)
        ensures
            projected(r, *self, cols@),
    {
        Beneficiary {
            id: if has_column(cols, Column::Id) { self.id } else { 0 },
            first_name: if has_column(cols, Column::FirstName) { clone_text(&self.first_name) } else { String::new() },
            last_name: if has_column(cols, Column::LastName) { clone_text(&self.last_name) } else { String::new() },
            email: if has_column(cols, Column::Email) { clone_text(&self.email) } else { String::new() },
            phone: if has_column(cols, Column::Phone) { clone_text(&self.phone) } else { String::new() },
            address: if has_column(cols, Column::Address) { clone_text(&self.address) } else { String::new() },
            postal_code: if has_column(cols, Column::PostalCode) { clone_text(&self.postal_code) } else { String::new() },
            kid: if has_column(cols, Column::Kid) { self.kid } else { 0 },
            adult: if has_column(cols, Column::Adult) { self.adult } else { 0 },
            monthly_amount: if has_column(cols, Column::MonthlyAmount) { self.monthly_amount } else { 0 },
            weekly_amount: if has_column(cols, Column::WeeklyAmount) { self.weekly_amount } else { 0 },
            category: if has_column(cols, Column::Category) { self.category } else { 0 },
            monthly_limit: if has_column(cols, Column::MonthlyLimit) { self.monthly_limit } else { 0 },
            weekly_limit: if has_column(cols, Column::WeeklyLimit) { self.weekly_limit } else { 0 },
            birth: if has_column(cols, Column::Birth) { clone_opt_text(&self.birth) } else { None },
            last_presence: if has_column(cols, Column::LastPresence) { clone_text(&self.last_presence) } else { String::new() },
            sexe: if has_column(cols, Column::Sexe) { clone_text(&self.sexe) } else { String::new() },
            language: if has_column(cols, Column::Language) { clone_text(&self.language) } else { String::new() },
            origin: if has_column(cols, Column::Origin) { clone_text(&self.origin) } else { String::new() },
            city: if has_column(cols, Column::City) { clone_text(&self.city) } else { String::new() },
            study: if has_column(cols, Column::Study) { clone_text(&self.study) } else { String::new() },
            income: if has_column(cols, Column::Income) { clone_text(&self.income) } else { String::new() },
            family_situation: if has_column(cols, Column::FamilySituation) { clone_text(&self.family_situation) } else { String::new() },
            is_active: if has_column(cols, Column::IsActive) { self.is_active } else { false },
            is_sdf: if has_column(cols, Column::IsSdf) { self.is_sdf } else { false },
            is_employed: if has_column(cols, Column::IsEmployed) { self.is_employed } else { false },
            has_allergies: if has_column(cols, Column::HasAllergies) { self.has_allergies } else { false },
            has_general_note: if has_column(cols, Column::HasGeneralNote) { self.has_general_note } else { false },
        }
    }
}

impl View for Beneficiary {
    type V = Seq<Scalar>;

    /// The values of the record, in declaration order.
    open spec fn view(&self) -> Seq<Scalar> {
        seq![
            Scalar::Int(self.id),
            Scalar::Text(self.first_name@),
            Scalar::Text(self.last_name@),
            Scalar::Text(self.email@),
            Scalar::Text(self.phone@),
            Scalar::Text(self.address@),
            Scalar::Text(self.postal_code@),
            Scalar::Byte(self.kid),
            Scalar::Byte(self.adult),
            Scalar::Real(self.monthly_amount),
            Scalar::Real(self.weekly_amount),
            Scalar::Int(self.category),
            Scalar::Real(self.monthly_limit),
            Scalar::Real(self.weekly_limit),
            Scalar::MaybeText(opt_view(self.birth)),
            Scalar::Text(self.last_presence@),
            Scalar::Text(self.sexe@),
            Scalar::Text(self.language@),
            Scalar::Text(self.origin@),
            Scalar::Text(self.city@),
            Scalar::Text(self.study@),
            Scalar::Text(self.income@),
            Scalar::Text(self.family_situation@),
            Scalar::Flag(self.is_active),
            Scalar::Flag(self.is_sdf),
            Scalar::Flag(self.is_employed),
            Scalar::Flag(self.has_allergies),
            Scalar::Flag(self.has_general_note),
        ]
    }
}

/// The values of each record of a list.
pub open spec fn beneficiary_views(xs: Seq<Beneficiary>) -> Seq<Seq<Scalar>> {
    xs.map_values(|x: Beneficiary| x@)
}

/// The schema of a beneficiary: the kind of each value, in order.
pub open spec fn beneficiary_kinds() -> Seq<Kind> {
    seq![Kind::Int, Kind::Text, Kind::Text, Kind::Text, Kind::Text, Kind::Text, Kind::Text, Kind::Byte, Kind::Byte, Kind::Real, Kind::Real, Kind::Int, Kind::Real, Kind::Real, Kind::MaybeText, Kind::Text, Kind::Text, Kind::Text, Kind::Text, Kind::Text, Kind::Text, Kind::Text, Kind::Text, Kind::Flag, Kind::Flag, Kind::Flag, Kind::Flag, Kind::Flag]
}

impl Beneficiary {
    /// The values of the record, in declaration order.
    pub fn to_values(&self) -> (r: Vec<Value>)
        ensures
            scalars(r@) == self@,
    {
        let r = vec![
            Value::Int(self.id),
            Value::Text(clone_text(&self.first_name)),
            Value::Text(clone_text(&self.last_name)),
            Value::Text(clone_text(&self.email)),
            Value::Text(clone_text(&self.phone)),
            Value::Text(clone_text(&self.address)),
            Value::Text(clone_text(&self.postal_code)),
            Value::Byte(self.kid),
            Value::Byte(self.adult),
            Value::Real(self.monthly_amount),
            Value::Real(self.weekly_amount),
            Value::Int(self.category),
            Value::Real(self.monthly_limit),
            Value::Real(self.weekly_limit),
            Value::MaybeText(clone_opt_text(&self.birth)),
            Value::Text(clone_text(&self.last_presence)),
            Value::Text(clone_text(&self.sexe)),
            Value::Text(clone_text(&self.language)),
            Value::Text(clone_text(&self.origin)),
            Value::Text(clone_text(&self.city)),
            Value::Text(clone_text(&self.study)),
            Value::Text(clone_text(&self.income)),
            Value::Text(clone_text(&self.family_situation)),
            Value::Flag(self.is_active),
            Value::Flag(self.is_sdf),
            Value::Flag(self.is_employed),
            Value::Flag(self.has_allergies),
            Value::Flag(self.has_general_note),
        ];
        proof {
            assert(scalars(r@) =~= self@);
        }
        r
    }

    /// The record whose values `vs` holds; `None` when their kinds differ
    /// from the schema.
    pub fn from_values(vs: &Vec<Value>) -> (r: Option<Beneficiary>)
        ensures
            kinds_of(scalars(vs@)) == beneficiary_kinds() ==> r is Some,
            r matches Some(x) ==> x@ == scalars(vs@),
    {
        if vs.len() != 28 {
            proof {
                assert(kinds_of(scalars(vs@)).len() != beneficiary_kinds().len());
            }
            return None;
        }
        proof {
            if kinds_of(scalars(vs@)) == beneficiary_kinds() {
                assert forall|i: int| 0 <= i < 28 implies kind_of(#[trigger] vs@[i]) == beneficiary_kinds()[i] by {
                    assert(kinds_of(scalars(vs@))[i] == scalar_kind(vs@[i]@));
                }
            }
        }
        let id = match &vs[0] {
            Value::Int(x) => *x,
            _ => return None,
        };
        let first_name = match &vs[1] {
            Value::Text(s) => clone_text(s),
            _ => return None,
        };
        let last_name = match &vs[2] {
            Value::Text(s) => clone_text(s),
            _ => return None,
        };
        let email = match &vs[3] {
            Value::Text(s) => clone_text(s),
            _ => return None,
        };
        let phone = match &vs[4] {
            Value::Text(s) => clone_text(s),
            _ => return None,
        };
        let address = match &vs[5] {
            Value::Text(s) => clone_text(s),
            _ => return None,
        };
        let postal_code = match &vs[6] {
            Value::Text(s) => clone_text(s),
            _ => return None,
        };
        let kid = match &vs[7] {
            Value::Byte(x) => *x,
            _ => return None,
        };
        let adult = match &vs[8] {
            Value::Byte(x) => *x,
            _ => return None,
        };
        let monthly_amount = match &vs[9] {
            Value::Real(x) => *x,
            _ => return None,
        };
        let weekly_amount = match &vs[10] {
            Value::Real(x) => *x,
            _ => return None,
        };
        let category = match &vs[11] {
            Value::Int(x) => *x,
            _ => return None,
        };
        let monthly_limit = match &vs[12] {
            Value::Real(x) => *x,
            _ => return None,
        };
        let weekly_limit = match &vs[13] {
            Value::Real(x) => *x,
            _ => return None,
        };
        let birth = match &vs[14] {
            Value::MaybeText(s) => clone_opt_text(s),
            _ => return None,
        };
        let last_presence = match &vs[15] {
            Value::Text(s) => clone_text(s),
            _ => return None,
        };
        let sexe = match &vs[16] {
            Value::Text(s) => clone_text(s),
            _ => return None,
        };
        let language = match &vs[17] {
            Value::Text(s) => clone_text(s),
            _ => return None,
        };
        let origin = match &vs[18] {
            Value::Text(s) => clone_text(s),
            _ => return None,
        };
        let city = match &vs[19] {
            Value::Text(s) => clone_text(s),
            _ => return None,
        };
        let study = match &vs[20] {
            Value::Text(s) => clone_text(s),
            _ => return None,
        };
        let income = match &vs[21] {
            Value::Text(s) => clone_text(s),
            _ => return None,
        };
        let family_situation = match &vs[22] {
            Value::Text(s) => clone_text(s),
            _ => return None,
        };
        let is_active = match &vs[23] {
            Value::Flag(x) => *x,
            _ => return None,
        };
        let is_sdf = match &vs[24] {
            Value::Flag(x) => *x,
            _ => return None,
        };
        let is_employed = match &vs[25] {
            Value::Flag(x) => *x,
            _ => return None,
        };
        let has_allergies = match &vs[26] {
            Value::Flag(x) => *x,
            _ => return None,
        };
        let has_general_note = match &vs[27] {
            Value::Flag(x) => *x,
            _ => return None,
        };
        let r = Beneficiary { id, first_name, last_name, email, phone, address, postal_code, kid, adult, monthly_amount, weekly_amount, category, monthly_limit, weekly_limit, birth, last_presence, sexe, language, origin, city, study, income, family_situation, is_active, is_sdf, is_employed, has_allergies, has_general_note };
        proof {
            assert(r@ =~= scalars(vs@));
        }
        Some(r)
    }

    /// The encoding of the record.
    pub fn encode(&self) -> (r: Vec<u8>)
        ensures
            r@ == values_bytes(self@),
    {
        encode_values(&self.to_values())
    }

    /// The encoding of a list of records: their count, then each record.
    pub fn encode_list(items: &Vec<Beneficiary>) -> (r: Vec<u8>)
        ensures
            r@ == list_bytes(beneficiary_views(items@)),
    {
        let mut out: Vec<u8> = Vec::new();
        encode_value(&Value::Size(items.len() as u64), &mut out);
        let ghost views = beneficiary_views(items@);
        let mut i: usize = 0;
        while i < items.len()
            invariant
                i <= items@.len(),
                views == beneficiary_views(items@),
                out@ == varint(items@.len() as nat) + records_bytes(views.take(i as int)),
            decreases items@.len() - i,
        {
            let mut b = items[i].encode();
            out.append(&mut b);
            proof {
                assert(views.take(i + 1).drop_last() =~= views.take(i as int));
                assert(views.take(i + 1).last() == items@[i as int]@);
            }
            i = i + 1;
        }
        proof {
            assert(views.take(items@.len() as int) =~= views);
        }
        out
    }

    /// Decodes a record that fills `bytes` exactly: the encoding of any
    /// record decodes to an equal record, and input with bytes left over
    /// after a record is refused.
    pub fn decode(bytes: &Vec<u8>) -> (r: Option<Beneficiary>)
        ensures
            forall|x: Beneficiary| bytes@ == #[trigger] values_bytes(x@) ==> r is Some && (r->0)@ == x@,
    {
        let kinds = vec![Kind::Int, Kind::Text, Kind::Text, Kind::Text, Kind::Text, Kind::Text, Kind::Text, Kind::Byte, Kind::Byte, Kind::Real, Kind::Real, Kind::Int, Kind::Real, Kind::Real, Kind::MaybeText, Kind::Text, Kind::Text, Kind::Text, Kind::Text, Kind::Text, Kind::Text, Kind::Text, Kind::Text, Kind::Flag, Kind::Flag, Kind::Flag, Kind::Flag, Kind::Flag];
        proof {
            assert(kinds@ =~= beneficiary_kinds());
            assert forall|x: Beneficiary| bytes@ == #[trigger] values_bytes(x@) implies
                kinds_of(x@) == kinds@ && bytes@.skip(0) == values_bytes(x@) + Seq::<u8>::empty() by {
                assert(kinds_of(x@) =~= kinds@);
                assert(bytes@.skip(0) =~= values_bytes(x@) + Seq::<u8>::empty());
            }
        }
        match decode_values(bytes, 0, &kinds) {
            Some((vs, end)) => {
                if end != bytes.len() {
                    return None;
                }
                proof {
                    assert forall|x: Beneficiary| bytes@ == #[trigger] values_bytes(x@) implies
                        kinds_of(scalars(vs@)) == beneficiary_kinds() by {
                        assert(kinds_of(x@) =~= kinds@);
                    }
                }
                Beneficiary::from_values(&vs)
            },
            None => None,
        }
    }
}

impl Beneficiary {
    /// Decodes a list of records that fills `bytes` exactly: the encoding of
    /// any list decodes to an equal list.
    pub fn decode_list(bytes: &Vec<u8>) -> (r: Option<Vec<Beneficiary>>)
        ensures
            forall|xs: Seq<Beneficiary>| bytes@ == #[trigger] list_bytes(beneficiary_views(xs)) ==> r is Some
                && beneficiary_views((r->0)@) == beneficiary_views(xs),
    {
        let kinds = vec![Kind::Int, Kind::Text, Kind::Text, Kind::Text, Kind::Text, Kind::Text, Kind::Text, Kind::Byte, Kind::Byte, Kind::Real, Kind::Real, Kind::Int, Kind::Real, Kind::Real, Kind::MaybeText, Kind::Text, Kind::Text, Kind::Text, Kind::Text, Kind::Text, Kind::Text, Kind::Text, Kind::Text, Kind::Flag, Kind::Flag, Kind::Flag, Kind::Flag, Kind::Flag];
        proof {
            assert(kinds@ =~= beneficiary_kinds());
            assert forall|xs: Seq<Beneficiary>| bytes@ == #[trigger] list_bytes(beneficiary_views(xs)) implies
                all_of_kinds(beneficiary_views(xs), kinds@) by {
                assert forall|i: int| 0 <= i < xs.len() implies kinds_of(#[trigger] beneficiary_views(xs)[i]) == kinds@ by {
                    assert(kinds_of(xs[i]@) =~= kinds@);
                }
            }
        }
        let recs = match decode_records(bytes, &kinds) {
            Some(recs) => recs,
            None => return None,
        };
        let mut out: Vec<Beneficiary> = Vec::new();
        let mut i: usize = 0;
        while i < recs.len()
            invariant
                i <= recs@.len(),
                kinds@ == beneficiary_kinds(),
                out@.len() == i,
                forall|j: int| 0 <= j < i ==> (#[trigger] out@[j])@ == scalars(recs@[j]@),
                forall|xs: Seq<Beneficiary>| bytes@ == #[trigger] list_bytes(beneficiary_views(xs)) ==> {
                    &&& recs@.len() == xs.len()
                    &&& forall|j: int| 0 <= j < xs.len() ==> scalars((#[trigger] recs@[j])@) == beneficiary_views(xs)[j]
                },
            decreases recs@.len() - i,
        {
            match Beneficiary::from_values(&recs[i]) {
                Some(x) => out.push(x),
                None => {
                    proof {
                        assert forall|xs: Seq<Beneficiary>| bytes@ == #[trigger] list_bytes(beneficiary_views(xs)) implies false by {
                            assert(scalars(recs@[i as int]@) == xs[i as int]@);
                            assert(kinds_of(xs[i as int]@) =~= beneficiary_kinds());
                        }
                    }
                    return None;
                },
            }
            i = i + 1;
        }
        proof {
            assert forall|xs: Seq<Beneficiary>| bytes@ == #[trigger] list_bytes(beneficiary_views(xs)) implies
                beneficiary_views(out@) == beneficiary_views(xs) by {
                assert(beneficiary_views(out@) =~= beneficiary_views(xs));
            }
        }
        Some(out)
    }
}

impl Beneficiary {
    /// Decodes a record at `at`: the encoding of any record, followed by
    /// anything, decodes to an equal record and the position after it.
    pub fn decode_at(bytes: &Vec<u8>, at: usize) -> (r: Option<(Beneficiary, usize)>)
        requires
            at <= bytes@.len(),
        ensures
            forall|x: Beneficiary, rest: Seq<u8>| bytes@.skip(at as int) == #[trigger] (values_bytes(x@) + rest) ==> r is Some
                && (r->0).0@ == x@ && (r->0).1 == at + values_bytes(x@).len(),
            r matches Some((_, end)) ==> at <= end <= bytes@.len(),
    {
        let kinds = vec![Kind::Int, Kind::Text, Kind::Text, Kind::Text, Kind::Text, Kind::Text, Kind::Text, Kind::Byte, Kind::Byte, Kind::Real, Kind::Real, Kind::Int, Kind::Real, Kind::Real, Kind::MaybeText, Kind::Text, Kind::Text, Kind::Text, Kind::Text, Kind::Text, Kind::Text, Kind::Text, Kind::Text, Kind::Flag, Kind::Flag, Kind::Flag, Kind::Flag, Kind::Flag];
        proof {
            assert(kinds@ =~= beneficiary_kinds());
            assert forall|x: Beneficiary| #[trigger] kinds_of(x@) == kinds@ by {
                assert(kinds_of(x@) =~= kinds@);
            }
        }
        match decode_values(bytes, at, &kinds) {
            Some((vs, end)) => {
                proof {
                    assert forall|x: Beneficiary, rest: Seq<u8>| bytes@.skip(at as int) == #[trigger] (values_bytes(x@) + rest)
                        implies kinds_of(scalars(vs@)) == beneficiary_kinds() by {
                        assert(kinds_of(x@) == kinds@);
                    }
                }
                match Beneficiary::from_values(&vs) {
                    Some(x) => Some((x, end)),
                    None => None,
                }
            },
            None => None,
        }
    }
}

} // verus!
