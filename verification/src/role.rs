use vstd::prelude::*;

verus! {

/// The permission level a principal holds within one team.
#[derive(Clone, Copy, Debug, PartialEq, Eq, Structural)]
pub enum Role {
    Manager,
    Member,
    Viewer,
    /// Stands for a role name that is not recognised; it grants nothing.
    Invalid,
}

/// The role that a name stands for; any name but the three known ones is `Invalid`.
pub open spec fn role_named(name: Seq<char>) -> Role {
    if name == "Manager"@ {
        Role::Manager
    } else if name == "Member"@ {
        Role::Member
    } else if name == "Viewer"@ {
        Role::Viewer
    } else {
        Role::Invalid
    }
}

/// The name under which a role is written.
pub open spec fn role_name(role: Role) -> Seq<char> {
    match role {
        Role::Manager => "Manager"@,
        Role::Member => "Member"@,
        Role::Viewer => "Viewer"@,
        Role::Invalid => "INVALID"@,
    }
}

impl Default for Role {
    fn default() -> (role: Self)
        ensures
            role == Role::Viewer,
    {
        Role::Viewer
    }
}

impl Role {
    /// Reads a role from its name. Names are case sensitive.
    pub fn from_name(name: &str) -> (role: Self)
        ensures
            role == role_named(name@),
    {
        let name = name.to_owned();
        if name == "Manager".to_owned() {
            Role::Manager
        } else if name == "Member".to_owned() {
            Role::Member
        } else if name == "Viewer".to_owned() {
            Role::Viewer
        } else {
            Role::Invalid
        }
    }

    /// Writes the role as its name.
    pub fn name(self) -> (name: String)
        ensures
            name@ == role_name(self),
    {
        match self {
            Role::Manager => "Manager".to_owned(),
            Role::Member => "Member".to_owned(),
            Role::Viewer => "Viewer".to_owned(),
            Role::Invalid => "INVALID".to_owned(),
        }
    }
}

/// A role that is written as its name and read back is the same role.
pub proof fn lemma_role_name_round_trip(role: Role)
    ensures
        role_named(role_name(role)) == role,
{
    reveal_strlit("Manager");
    reveal_strlit("Member");
    reveal_strlit("Viewer");
    reveal_strlit("INVALID");
    assert("Manager"@.len() == 7);
    assert("Member"@.len() == 6);
    assert("Viewer"@[0] == 'V');
    assert("Member"@[0] == 'M');
    assert("INVALID"@[0] == 'I');
    assert("Manager"@[0] == 'M');
}

} // verus!
