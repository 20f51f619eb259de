use casework::error::{AuthError, Failure, StorageError};
use casework::policy::{authorize, authorize_named, Operation, Projection, Resource, Variant};
use casework::role::Role;

const ROLES: [Role; 4] = [Role::Dev, Role::Admin, Role::Ts, Role::User];
const RESOURCES: [Resource; 7] = [
    Resource::Users,
    Resource::Beneficiary,
    Resource::Allergy,
    Resource::Presence,
    Resource::Note,
    Resource::Category,
    Resource::Stats,
];
const OPERATIONS: [Operation; 6] = [
    Operation::List,
    Operation::Search,
    Operation::Read,
    Operation::Create,
    Operation::Update,
    Operation::Delete,
];

fn projection(role: Role) -> Projection {
    match role {
        Role::Dev | Role::Admin => Projection::Extended,
        Role::Ts => Projection::Full,
        Role::User => Projection::Basic,
    }
}

fn expected(role: Role, res: Resource, op: Operation) -> Option<Variant> {
    let elevated = matches!(role, Role::Dev | Role::Admin);
    let p = projection(role);
    match (res, op) {
        (Resource::Users, Operation::List) if elevated => Some(Variant::ListUsers),
        (Resource::Users, Operation::Create | Operation::Update | Operation::Delete) => Some(Variant::ManageUsers),
        (Resource::Beneficiary, Operation::List) => Some(Variant::ListBeneficiaries(p)),
        (Resource::Beneficiary, Operation::Search | Operation::Read) => Some(Variant::BeneficiaryDetails(p)),
        (Resource::Beneficiary, Operation::Create) => Some(Variant::CreateBeneficiary(p)),
        (Resource::Beneficiary, Operation::Update) => Some(Variant::UpdateBeneficiary(p)),
        (Resource::Allergy, Operation::Read) => Some(Variant::ReadAllergies),
        (Resource::Allergy, Operation::Create | Operation::Delete) => Some(Variant::WriteAllergy),
        (Resource::Presence, Operation::Read) => Some(Variant::ReadPresences),
        (Resource::Presence, Operation::Create | Operation::Delete) => Some(Variant::WritePresence),
        (Resource::Note, Operation::Read) => Some(Variant::ReadNotes(p)),
        (Resource::Note, Operation::Create | Operation::Update | Operation::Delete) => Some(Variant::WriteNote),
        (Resource::Category, Operation::List) => Some(Variant::ListCategories),
        (Resource::Category, Operation::Create | Operation::Update | Operation::Delete) => Some(Variant::WriteCategory),
        (Resource::Stats, Operation::Read) if elevated => Some(Variant::ReadStats),
        _ => None,
    }
}

#[test]
fn authorize_matches_the_whole_table() {
    for role in ROLES {
        for res in RESOURCES {
            for op in OPERATIONS {
                let got = authorize(role, res, op);
                match expected(role, res, op) {
                    Some(v) => assert_eq!(got, Ok(v), "{:?} {:?} {:?}", role, res, op),
                    None => assert_eq!(got, Err(AuthError::Forbidden), "{:?} {:?} {:?}", role, res, op),
                }
            }
        }
    }
}

#[test]
fn stats_and_user_listing_are_for_elevated_roles_only() {
    assert_eq!(authorize(Role::Admin, Resource::Stats, Operation::Read), Ok(Variant::ReadStats));
    assert_eq!(authorize(Role::Dev, Resource::Stats, Operation::Read), Ok(Variant::ReadStats));
    assert_eq!(authorize(Role::Ts, Resource::Stats, Operation::Read), Err(AuthError::Forbidden));
    assert_eq!(authorize(Role::User, Resource::Users, Operation::List), Err(AuthError::Forbidden));
    assert_eq!(authorize(Role::Ts, Resource::Beneficiary, Operation::Delete), Err(AuthError::Forbidden));
}

#[test]
fn unknown_role_names_are_denied() {
    assert_eq!(
        authorize_named(&"Guest".to_string(), Resource::Beneficiary, Operation::List),
        Err(AuthError::Forbidden)
    );
    assert_eq!(authorize_named(&"".to_string(), Resource::Category, Operation::List), Err(AuthError::Forbidden));
    assert_eq!(
        authorize_named(&"TS".to_string(), Resource::Beneficiary, Operation::Read),
        Ok(Variant::BeneficiaryDetails(Projection::Full))
    );
    assert_eq!(
        authorize_named(&"Admin".to_string(), Resource::Users, Operation::List),
        Ok(Variant::ListUsers)
    );
}

#[test]
fn role_names_round_trip() {
    for role in ROLES {
        assert_eq!(Role::parse(&role.name()), Some(role));
    }
    assert_eq!(Role::Ts.name(), "TS");
    assert_eq!(Role::parse(&"admin".to_string()), None);
}

#[test]
fn failures_map_to_status_codes() {
    assert_eq!(Failure::Auth(AuthError::InvalidOrExpiredToken).status(), 401);
    assert_eq!(Failure::Auth(AuthError::BadCredentials).status(), 401);
    assert_eq!(Failure::Auth(AuthError::Forbidden).status(), 403);
    assert_eq!(Failure::Storage(StorageError::NotFound).status(), 404);
    assert_eq!(Failure::Storage(StorageError::Unavailable).status(), 500);
    assert_eq!(Failure::Internal.status(), 500);
}
