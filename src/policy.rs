//! The access policy: a static table from (role, resource, operation) to the
//! authorized query variant. Whatever the table does not list is denied.
use vstd::prelude::*;
use crate::error::AuthError;
use crate::role::{Role, role_named};

verus! {

/// What a request acts on.
#[derive(Clone, Copy, Debug, PartialEq, Eq, Structural)]
pub enum Resource {
    Users,
    Beneficiary,
    Allergy,
    Presence,
    Note,
    Category,
    Stats,
}

/// What a request does to its resource.
#[derive(Clone, Copy, Debug, PartialEq, Eq, Structural)]
pub enum Operation {
    List,
    Search,
    Read,
    Create,
    Update,
    Delete,
}

/// How much of a beneficiary a role may see and change.
#[derive(Clone, Copy, Debug, PartialEq, Eq, Structural)]
pub enum Projection {
    /// The redacted view of the `User` role.
    Basic,
    /// The view of `Admin` and `Dev`.
    Extended,
    /// The view of `TS`.
    Full,
}

/// An authorized query or projection.
#[derive(Clone, Copy, Debug, PartialEq, Eq, Structural)]
pub enum Variant {
    ListUsers,
    ManageUsers,
    ListBeneficiaries(Projection),
    BeneficiaryDetails(Projection),
    CreateBeneficiary(Projection),
    UpdateBeneficiary(Projection),
    ReadAllergies,
    WriteAllergy,
    ReadPresences,
    WritePresence,
    ReadNotes(Projection),
    WriteNote,
    ListCategories,
    WriteCategory,
    ReadStats,
}

/// The projection of each role.
pub open spec fn projection_of(role: Role) -> Projection {
    match role {
        Role::Dev => Projection::Extended,
        Role::Admin => Projection::Extended,
        Role::Ts => Projection::Full,
        Role::User => Projection::Basic,
    }
}

pub open spec fn elevated(role: Role) -> bool {
    role == Role::Admin || role == Role::Dev
}

/// The roles that the table authorizes for an operation on a resource.
pub open spec fn allowed(role: Role, res: Resource, op: Operation) -> bool {
    match (res, op) {
        (Resource::Users, Operation::List) => elevated(role),
        (Resource::Users, Operation::Create) => true,
        (Resource::Users, Operation::Update) => true,
        (Resource::Users, Operation::Delete) => true,
        (Resource::Beneficiary, Operation::Delete) => false,
        (Resource::Beneficiary, _) => true,
        (Resource::Allergy, Operation::Read) => true,
        (Resource::Allergy, Operation::Create) => true,
        (Resource::Allergy, Operation::Delete) => true,
        (Resource::Presence, Operation::Read) => true,
        (Resource::Presence, Operation::Create) => true,
        (Resource::Presence, Operation::Delete) => true,
        (Resource::Note, Operation::Read) => true,
        (Resource::Note, Operation::Create) => true,
        (Resource::Note, Operation::Update) => true,
        (Resource::Note, Operation::Delete) => true,
        (Resource::Category, Operation::List) => true,
        (Resource::Category, Operation::Create) => true,
        (Resource::Category, Operation::Update) => true,
        (Resource::Category, Operation::Delete) => true,
        (Resource::Stats, Operation::Read) => elevated(role),
        _ => false,
    }
}

/// The variant that an authorized role gets: one entry per triple.
pub open spec fn variant_of(role: Role, res: Resource, op: Operation) -> Variant
    recommends
        allowed(role, res, op),
{
    let p = projection_of(role);
    match (res, op) {
        (Resource::Users, Operation::List) => Variant::ListUsers,
        (Resource::Users, _) => Variant::ManageUsers,
        (Resource::Beneficiary, Operation::List) => Variant::ListBeneficiaries(p),
        (Resource::Beneficiary, Operation::Create) => Variant::CreateBeneficiary(p),
        (Resource::Beneficiary, Operation::Update) => Variant::UpdateBeneficiary(p),
        (Resource::Beneficiary, _) => Variant::BeneficiaryDetails(p),
        (Resource::Allergy, Operation::Read) => Variant::ReadAllergies,
        (Resource::Allergy, _) => Variant::WriteAllergy,
        (Resource::Presence, Operation::Read) => Variant::ReadPresences,
        (Resource::Presence, _) => Variant::WritePresence,
        (Resource::Note, Operation::Read) => Variant::ReadNotes(p),
        (Resource::Note, _) => Variant::WriteNote,
        (Resource::Category, Operation::List) => Variant::ListCategories,
        (Resource::Category, _) => Variant::WriteCategory,
        (Resource::Stats, _) => Variant::ReadStats,
    }
}

/// The decision of the table on a triple.
pub open spec fn decision(role: Role, res: Resource, op: Operation) -> Result<Variant, AuthError> {
    if allowed(role, res, op) {
        Ok(variant_of(role, res, op))
    } else {
        Err(AuthError::Forbidden)
    }
}

/// The projection of a role.
pub fn projection_for(role: Role) -> (r: Projection)
    ensures
        r == projection_of(role),
{
    match role {
        Role::Dev => Projection::Extended,
        Role::Admin => Projection::Extended,
        Role::Ts => Projection::Full,
        Role::User => Projection::Basic,
    }
}

/// Selects the variant that `role` may use for `op` on `res`, or denies.
pub fn authorize(role: Role, res: Resource, op: Operation) -> (r: Result<Variant, AuthError>)
    ensures
        allowed(role, res, op) ==> r == Ok::<Variant, AuthError>(variant_of(role, res, op)),
        !allowed(role, res, op) ==> r == Err::<Variant, AuthError>(AuthError::Forbidden),
{
    let p = projection_for(role);
    let elevated = match role {
        Role::Admin | Role::Dev => true,
        _ => false,
    };
    match (res, op) {
        (Resource::Users, Operation::List) => if elevated {
            Ok(Variant::ListUsers)
        } else {
            Err(AuthError::Forbidden)
        },
        (Resource::Users, Operation::Create)
        | (Resource::Users, Operation::Update)
        | (Resource::Users, Operation::Delete) => Ok(Variant::ManageUsers),
        (Resource::Beneficiary, Operation::List) => Ok(Variant::ListBeneficiaries(p)),
        (Resource::Beneficiary, Operation::Create) => Ok(Variant::CreateBeneficiary(p)),
        (Resource::Beneficiary, Operation::Update) => Ok(Variant::UpdateBeneficiary(p)),
        (Resource::Beneficiary, Operation::Search)
        | (Resource::Beneficiary, Operation::Read) => Ok(Variant::BeneficiaryDetails(p)),
        (Resource::Allergy, Operation::Read) => Ok(Variant::ReadAllergies),
        (Resource::Allergy, Operation::Create)
        | (Resource::Allergy, Operation::Delete) => Ok(Variant::WriteAllergy),
        (Resource::Presence, Operation::Read) => Ok(Variant::ReadPresences),
        (Resource::Presence, Operation::Create)
        | (Resource::Presence, Operation::Delete) => Ok(Variant::WritePresence),
        (Resource::Note, Operation::Read) => Ok(Variant::ReadNotes(p)),
        (Resource::Note, Operation::Create)
        | (Resource::Note, Operation::Update)
        | (Resource::Note, Operation::Delete) => Ok(Variant::WriteNote),
        (Resource::Category, Operation::List) => Ok(Variant::ListCategories),
        (Resource::Category, Operation::Create)
        | (Resource::Category, Operation::Update)
        | (Resource::Category, Operation::Delete) => Ok(Variant::WriteCategory),
        (Resource::Stats, Operation::Read) => if elevated {
            Ok(Variant::ReadStats)
        } else {
            Err(AuthError::Forbidden)
        },
        _ => Err(AuthError::Forbidden),
    }
}

/// Authorizes a role given by its stored name; a name outside the closed set
/// of roles is denied.
pub fn authorize_named(role: &String, res: Resource, op: Operation) -> (r: Result<Variant, AuthError>)
    ensures
        role_named(role@) is None ==> r == Err::<Variant, AuthError>(AuthError::Forbidden),
        role_named(role@) is Some ==> r == decision(role_named(role@)->0, res, op),
{
    match Role::parse(role) {
        Some(ro) => authorize(ro, res, op),
        None => Err(AuthError::Forbidden),
    }
}

/// Deny by default: for every triple, a role outside the authorized set is
/// refused, and a role inside it gets the one variant of its table entry.
pub proof fn lemma_table_decides(role: Role, res: Resource, op: Operation)
    ensures
        !allowed(role, res, op) <==> decision(role, res, op) == Err::<Variant, AuthError>(AuthError::Forbidden),
        allowed(role, res, op) <==> decision(role, res, op) == Ok::<Variant, AuthError>(variant_of(role, res, op)),
{
}

} // verus!
