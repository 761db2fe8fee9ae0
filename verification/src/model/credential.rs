//! The credential record.

use crate::timestamp::Instant;
use crate::timestamp::Timestamp;
use vstd::prelude::*;

verus! {

/// A stored credential for a website or service.
///
/// The caller makes every field, the identifier and both timestamps included;
/// storing a credential changes none of them.
#[derive(Clone, Debug, PartialEq, Eq)]
pub struct Credential {
    /// Unique identifier of this credential, the primary key of its row.
    pub id: u128,
    /// Associated service or website URL.
    pub url: String,
    /// Optional description or label.
    pub description: Option<String>,
    /// Username for this credential.
    pub username: String,
    /// Password for this credential, kept as plain text.
    pub password: String,
    /// When this credential was created.
    pub created_at: Timestamp,
    /// When this credential was last updated.
    pub updated_at: Timestamp,
}

/// What a [`Credential`] holds, as mathematical values.
pub struct CredentialView {
    pub id: u128,
    pub url: Seq<char>,
    pub description: Option<Seq<char>>,
    pub username: Seq<char>,
    pub password: Seq<char>,
    pub created_at: Instant,
    pub updated_at: Instant,
}

impl CredentialView {
    /// Both timestamps are points in time.
    pub open spec fn is_valid(self) -> bool {
        self.created_at.is_valid() && self.updated_at.is_valid()
    }

    /// Both timestamps are points in time that RFC 3339 can write, so the
    /// credential can be stored and read back.
    pub open spec fn is_storable(self) -> bool {
        &&& self.is_valid()
        &&& self.created_at.in_rfc3339_years()
        &&& self.updated_at.in_rfc3339_years()
    }
}

impl View for Credential {
    type V = CredentialView;

    open spec fn view(&self) -> CredentialView {
        CredentialView {
            id: self.id,
            url: self.url@,
            description: match self.description {
                Some(text) => Some(text@),
                None => None,
            },
            username: self.username@,
            password: self.password@,
            created_at: self.created_at@,
            updated_at: self.updated_at@,
        }
    }
}

} // verus!
