//! The closed set of roles.
use vstd::prelude::*;

verus! {

/// A staff role. Storage holds it as text; policy treats it as this enumeration.
#[derive(Clone, Copy, Debug, PartialEq, Eq, Structural)]
pub enum Role {
    Dev,
    Admin,
    Ts,
    User,
}

/// The role that a stored role name denotes, if any.
pub open spec fn role_named(s: Seq<char>) -> Option<Role> {
    if s == "Dev"@ {
        Some(Role::Dev)
    } else if s == "Admin"@ {
        Some(Role::Admin)
    } else if s == "TS"@ {
        Some(Role::Ts)
    } else if s == "User"@ {
        Some(Role::User)
    } else {
        None
    }
}

pub open spec fn role_name(r: Role) -> Seq<char> {
    match r {
        Role::Dev => "Dev"@,
        Role::Admin => "Admin"@,
        Role::Ts => "TS"@,
        Role::User => "User"@,
    }
}

impl Role {
    /// Reads a stored role name. An unknown name gives `None`, which every
    /// policy decision treats as denial.
    pub fn parse(s: &String) -> (r: Option<Role>)
        ensures
            r == role_named(s@),
    {
        if *s == String::from_str("Dev") {
            Some(Role::Dev)
        } else if *s == String::from_str("Admin") {
            Some(Role::Admin)
        } else if *s == String::from_str("TS") {
            Some(Role::Ts)
        } else if *s == String::from_str("User") {
            Some(Role::User)
        } else {
            None
        }
    }

    /// The name under which storage holds this role.
    pub fn name(&self) -> (r: String)
        ensures
            r@ == role_name(*self),
            role_named(r@) == Some(*self),
    {
        proof {
            reveal_strlit("Dev");
            reveal_strlit("Admin");
            reveal_strlit("TS");
            reveal_strlit("User");
        }
        match self {
            Role::Dev => String::from_str("Dev"),
            Role::Admin => String::from_str("Admin"),
            Role::Ts => String::from_str("TS"),
            Role::User => String::from_str("User"),
        }
    }
}

} // verus!
