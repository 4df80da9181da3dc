use crate::text::{lowercase, same_text, to_lowercase};
use vstd::prelude::*;
use vstd::string::*;

verus! {

/// The standing of a member inside a group.
#[derive(Debug, Clone, Copy, PartialEq, Eq, Structural)]
pub enum Role {
    Owner,
    Admin,
    Moderator,
    Member,
}

/// A role name that is none of the four known ones.
#[derive(Debug, PartialEq, Eq)]
pub struct InvalidRole {
    /// The name as it was given.
    pub role: String,
}

impl InvalidRole {
    /// The text of the error.
    pub fn to_string(&self) -> (out: String)
        ensures
            out@ == "Invalid role: "@ + self.role@,
    {
        let mut out = String::from_str("Invalid role: ");
        out.append(self.role.as_str());
        out
    }
}

impl Role {
    /// The role that a lowercase name stands for, if any.
    pub open spec fn named(name: Seq<char>) -> Option<Role> {
        if name == "owner"@ {
            Some(Role::Owner)
        } else if name == "admin"@ {
            Some(Role::Admin)
        } else if name == "moderator"@ {
            Some(Role::Moderator)
        } else if name == "member"@ {
            Some(Role::Member)
        } else {
            None
        }
    }

    /// The role that a name stands for when case is ignored.
    pub open spec fn parse(name: Seq<char>) -> Option<Role> {
        Role::named(lowercase(name))
    }

    /// The permission level that the role carries in a room.
    pub open spec fn level(self) -> u64 {
        match self {
            Role::Owner => 100,
            Role::Admin => 95,
            Role::Moderator => 50,
            Role::Member => 10,
        }
    }

    /// Looks a role up by its lowercase name.
    pub fn from_lowercase(name: &str) -> (out: Option<Role>)
        ensures
            out == Role::named(name@),
    {
        if same_text(name, "owner") {
            Some(Role::Owner)
        } else if same_text(name, "admin") {
            Some(Role::Admin)
        } else if same_text(name, "moderator") {
            Some(Role::Moderator)
        } else if same_text(name, "member") {
            Some(Role::Member)
        } else {
            None
        }
    }

    /// Reads a role from its name, ignoring case. Any other text is refused
    /// and handed back in the error.
    pub fn from_str(s: &str) -> (out: Result<Role, InvalidRole>)
        ensures
            match Role::parse(s@) {
                Some(role) => out == Ok::<Role, InvalidRole>(role),
                None => out is Err && out->Err_0.role@ == s@,
            },
    {
        let lowered = to_lowercase(s);
        match Role::from_lowercase(lowered.as_str()) {
            Some(role) => Ok(role),
            None => Err(InvalidRole { role: String::from_str(s) }),
        }
    }

    /// Maps the role to its permission level.
    pub fn power_level(&self) -> (level: u64)
        ensures
            level == self.level(),
    {
        match self {
            Role::Owner => 100,
            Role::Admin => 95,
            Role::Moderator => 50,
            Role::Member => 10,
        }
    }
}

/// The mapping from roles to permission levels is total, takes exactly the
/// four values 100, 95, 50 and 10, and orders the roles strictly.
pub proof fn levels_are_fixed(role: Role)
    ensures
        role.level() == 100 || role.level() == 95 || role.level() == 50 || role.level() == 10,
        Role::Member.level() < Role::Moderator.level() < Role::Admin.level() < Role::Owner.level(),
{
}

} // verus!
