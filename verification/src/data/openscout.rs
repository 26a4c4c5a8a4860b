//! Caller credentials and the authorization decision.

use vstd::prelude::*;

verus! {

/// What a credential entitles its holder to.
#[derive(Debug, Clone, Copy, PartialEq, Eq, Structural)]
pub enum AuthLevel {
    ADMIN,
    TEAM,
}

impl AuthLevel {
    /// The rank of a level: administrators rank before teams.
    pub open spec fn spec_index(self) -> int {
        match self {
            AuthLevel::ADMIN => 0,
            AuthLevel::TEAM => 1,
        }
    }

    /// The rank of a level.
    pub fn index(&self) -> (i: u8)
        ensures
            i == self.spec_index(),
    {
        match self {
            AuthLevel::ADMIN => 0,
            AuthLevel::TEAM => 1,
        }
    }
}

/// Whether level `a` ranks below `required` in the order the ranks give.
pub open spec fn spec_level_below(a: AuthLevel, required: AuthLevel) -> bool {
    a.spec_index() < required.spec_index()
}

/// A caller's stored credential: its id, its secret key, and its level.
#[derive(Debug, Clone, PartialEq, Eq)]
pub struct Auth {
    pub _id: u32,
    pub key: String,
    pub auth: AuthLevel,
}

/// The authorization decision on one request: the presented key must
/// match the stored credential's key, and the stored level must not rank
/// below the required one.
pub fn auth_satisfies(stored: &Auth, presented_key: &String, required: AuthLevel) -> (ok: bool)
    ensures
        ok == (presented_key@ == stored.key@ && !spec_level_below(stored.auth, required)),
{
    let key_ok = *presented_key == stored.key;
    let level_ok = !(stored.auth.index() < required.index());
    key_ok && level_ok
}

/// The credential pair for the report store's database.
#[derive(Debug, Clone, PartialEq, Eq)]
pub struct MongoAuth {
    pub username: String,
    pub password: String,
}

} // verus!
