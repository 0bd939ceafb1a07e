//! Roles and the permissions they may grant.
use vstd::prelude::*;

verus! {

/// A role, with its permissions as a bit set.
pub struct Role {
    pub id: i32,
    pub name: String,
    pub default: bool,
    pub permissions: i32,
}

/// One permission; as a bit it is 1, 2, 4, 8 or 16, in this order.
#[derive(Clone, Copy, Debug, PartialEq, Eq, Structural)]
pub enum Permission {
    /// Follow other users.
    Follow,
    /// Comment on other users' articles.
    Comment,
    /// Write articles.
    Write,
    /// Manage other users' comments.
    Moderate,
    /// Administer the site.
    Admin,
}

impl Permission {
    /// The permission that a bit value names; any other value names `Follow`.
    pub open spec fn from_bits(value: i32) -> Permission {
        if value == 2 {
            Permission::Comment
        } else if value == 4 {
            Permission::Write
        } else if value == 8 {
            Permission::Moderate
        } else if value == 16 {
            Permission::Admin
        } else {
            Permission::Follow
        }
    }
}

impl From<i32> for Permission {
    fn from(value: i32) -> (r: Permission)
        ensures
            r == Permission::from_bits(value),
    {
        match value {
            1 => Permission::Follow,
            2 => Permission::Comment,
            4 => Permission::Write,
            8 => Permission::Moderate,
            16 => Permission::Admin,
            _ => Permission::Follow,
        }
    }
}

impl vstd::std_specs::convert::FromSpecImpl<i32> for Permission {
    open spec fn obeys_from_spec() -> bool {
        true
    }

    open spec fn from_spec(value: i32) -> Permission {
        Permission::from_bits(value)
    }
}

} // verus!
