//! Credentials as rows: what is written on insert and what is read on fetch.
//!
//! Writing turns the identifier into its canonical text and both timestamps
//! into RFC 3339 text; every other column holds its field verbatim. Reading
//! parses those three columns back, and one malformed row fails the whole
//! fetch.

use crate::identifier::canonical_text;
use crate::identifier::lemma_canonical_text_reads_back;
use crate::identifier::text_value;
use crate::identifier::uuid_parse_str;
use crate::identifier::uuid_to_string;
use crate::model::credential::Credential;
use crate::model::credential::CredentialView;
use crate::timestamp::rfc3339_instant;
use crate::timestamp::rfc3339_text;
use crate::timestamp::Instant;
use crate::timestamp::Timestamp;
use vstd::prelude::*;

verus! {

/// One row of the `credentials` table, column by column.
#[derive(Clone, Debug, PartialEq, Eq)]
pub struct Row {
    pub id: String,
    pub url: String,
    pub description: Option<String>,
    pub username: String,
    pub password: String,
    pub created_at: String,
    pub updated_at: String,
}

/// What a [`Row`] holds, as mathematical values.
pub struct RowView {
    pub id: Seq<char>,
    pub url: Seq<char>,
    pub description: Option<Seq<char>>,
    pub username: Seq<char>,
    pub password: Seq<char>,
    pub created_at: Seq<char>,
    pub updated_at: Seq<char>,
}

impl View for Row {
    type V = RowView;

    open spec fn view(&self) -> RowView {
        RowView {
            id: self.id@,
            url: self.url@,
            description: match self.description {
                Some(text) => Some(text@),
                None => None,
            },
            username: self.username@,
            password: self.password@,
            created_at: self.created_at@,
            updated_at: self.updated_at@,
        }
    }
}

/// A column whose text is parsed when a row is read.
#[derive(Clone, Copy, Debug, PartialEq, Eq)]
pub enum Column {
    Id,
    CreatedAt,
    UpdatedAt,
}

impl Column {
    /// The position of the column in a row, counted from zero.
    pub open spec fn position(self) -> int {
        match self {
            Column::Id => 0,
            Column::CreatedAt => 5,
            Column::UpdatedAt => 6,
        }
    }

    /// The position of the column in a row, counted from zero.
    pub fn index(&self) -> (i: usize)
        ensures
            i == self.position(),
    {
        match self {
            Column::Id => 0,
            Column::CreatedAt => 5,
            Column::UpdatedAt => 6,
        }
    }

    /// The name of the column in the table.
    pub fn name(&self) -> (name: &'static str)
        ensures
            name@ == match *self {
                Column::Id => "id"@,
                Column::CreatedAt => "created_at"@,
                Column::UpdatedAt => "updated_at"@,
            },
    {
        match self {
            Column::Id => "id",
            Column::CreatedAt => "created_at",
            Column::UpdatedAt => "updated_at",
        }
    }
}

/// A row could not be read: the text of `column` is malformed.
#[derive(Clone, Debug, PartialEq, Eq)]
pub struct DecodeError {
    /// The column that holds the malformed text.
    pub column: Column,
    /// The text as it was found.
    pub text: String,
}

/// What a [`DecodeError`] holds, as mathematical values.
pub struct DecodeErrorView {
    pub column: Column,
    pub text: Seq<char>,
}

impl View for DecodeError {
    type V = DecodeErrorView;

    open spec fn view(&self) -> DecodeErrorView {
        DecodeErrorView { column: self.column, text: self.text@ }
    }
}

/// The row that stores `c`.
pub open spec fn stored_row(c: CredentialView) -> RowView {
    RowView {
        id: canonical_text(c.id),
        url: c.url,
        description: c.description,
        username: c.username,
        password: c.password,
        created_at: rfc3339_text(c.created_at.secs, c.created_at.nanos),
        updated_at: rfc3339_text(c.updated_at.secs, c.updated_at.nanos),
    }
}

/// The instant that the text of a timestamp column reads as.
pub open spec fn read_instant(text: Seq<char>) -> Option<Instant> {
    match rfc3339_instant(text) {
        Some(p) => Some(Instant { secs: p.0, nanos: p.1 }),
        None => None,
    }
}

/// The credential that `row` reads as, or the first of its columns, in the
/// order `id`, `created_at`, `updated_at`, whose text is malformed.
pub open spec fn read_row(row: RowView) -> Result<CredentialView, DecodeErrorView> {
    match (text_value(row.id), read_instant(row.created_at), read_instant(row.updated_at)) {
        (None, _, _) => Err(DecodeErrorView { column: Column::Id, text: row.id }),
        (Some(_), None, _) => Err(
            DecodeErrorView { column: Column::CreatedAt, text: row.created_at },
        ),
        (Some(_), Some(_), None) => Err(
            DecodeErrorView { column: Column::UpdatedAt, text: row.updated_at },
        ),
        (Some(id), Some(created_at), Some(updated_at)) => Ok(
            CredentialView {
                id,
                url: row.url,
                description: row.description,
                username: row.username,
                password: row.password,
                created_at,
                updated_at,
            },
        ),
    }
}

/// Row `i` is the first row of `rows` that cannot be read.
pub open spec fn is_first_malformed(rows: Seq<RowView>, i: int) -> bool {
    &&& 0 <= i < rows.len()
    &&& read_row(rows[i]) is Err
    &&& forall|j: int| 0 <= j < i ==> (#[trigger] read_row(rows[j])) is Ok
}

/// The credentials that `rows` read as, in the order of the rows, or the error
/// of the first row that cannot be read.
pub open spec fn read_rows(rows: Seq<RowView>) -> Result<Seq<CredentialView>, DecodeErrorView> {
    if exists|i: int| is_first_malformed(rows, i) {
        let i = choose|i: int| is_first_malformed(rows, i);
        Err(read_row(rows[i])->Err_0)
    } else {
        Ok(Seq::new(rows.len(), |i: int| read_row(rows[i])->Ok_0))
    }
}

/// The views of `rows`, in order.
pub open spec fn row_views(rows: Seq<Row>) -> Seq<RowView> {
    Seq::new(rows.len(), |i: int| rows[i]@)
}

/// The views of `credentials`, in order.
pub open spec fn credential_views(credentials: Seq<Credential>) -> Seq<CredentialView> {
    Seq::new(credentials.len(), |i: int| credentials[i]@)
}

/// Only one row can be the first malformed one.
proof fn lemma_first_malformed_is_unique(rows: Seq<RowView>, i: int, j: int)
    requires
        is_first_malformed(rows, i),
        is_first_malformed(rows, j),
    ensures
        i == j,
{
    if i < j {
        assert(read_row(rows[i]) is Ok);
    } else if j < i {
        assert(read_row(rows[j]) is Ok);
    }
}

/// A fetch succeeds exactly when every row can be read, and then yields one
/// credential per row, each the one its row reads as.
pub proof fn lemma_read_rows_ok(rows: Seq<RowView>)
    ensures
        read_rows(rows) is Ok <==> forall|i: int|
            0 <= i < rows.len() ==> (#[trigger] read_row(rows[i])) is Ok,
        read_rows(rows) matches Ok(credentials) ==> credentials.len() == rows.len() && forall|
            i: int,
        |
            0 <= i < rows.len() ==> read_row(rows[i]) == Ok::<CredentialView, DecodeErrorView>(
                #[trigger] credentials[i],
            ),
{
    if exists|i: int| is_first_malformed(rows, i) {
        let i = choose|i: int| is_first_malformed(rows, i);
        assert(read_row(rows[i]) is Err);
    } else {
        if exists|i: int| 0 <= i < rows.len() && read_row(rows[i]) is Err {
            let k = choose|i: int| 0 <= i < rows.len() && read_row(rows[i]) is Err;
            lemma_some_row_is_first_malformed(rows, k);
        }
    }
}

/// If some row up to `k` cannot be read, one of them is the first.
proof fn lemma_some_row_is_first_malformed(rows: Seq<RowView>, k: int)
    requires
        0 <= k < rows.len(),
        read_row(rows[k]) is Err,
    ensures
        exists|i: int| is_first_malformed(rows, i),
    decreases k,
{
    if exists|j: int| 0 <= j < k && read_row(rows[j]) is Err {
        let j = choose|j: int| 0 <= j < k && read_row(rows[j]) is Err;
        lemma_some_row_is_first_malformed(rows, j);
    } else {
        assert(is_first_malformed(rows, k));
    }
}

/// A fetch fails with the error of the first row that cannot be read: every
/// row before it can be read, and nothing after it is looked at.
pub proof fn lemma_read_rows_err(rows: Seq<RowView>, i: int)
    requires
        is_first_malformed(rows, i),
    ensures
        read_rows(rows) == Err::<Seq<CredentialView>, DecodeErrorView>(read_row(rows[i])->Err_0),
{
    let k = choose|k: int| is_first_malformed(rows, k);
    lemma_first_malformed_is_unique(rows, i, k);
}

/// Rows that each read as a credential read together as exactly those
/// credentials, as many as there are rows and in the order of the rows.
pub proof fn lemma_read_rows_pointwise(rows: Seq<RowView>, credentials: Seq<CredentialView>)
    requires
        rows.len() == credentials.len(),
        forall|i: int| 0 <= i < rows.len() ==> read_row(#[trigger] rows[i]) == Ok::<
            CredentialView,
            DecodeErrorView,
        >(credentials[i]),
    ensures
        read_rows(rows) == Ok::<Seq<CredentialView>, DecodeErrorView>(credentials),
{
    lemma_read_rows_ok(rows);
    assert(read_rows(rows) is Ok) by {
        assert forall|i: int| 0 <= i < rows.len() implies (#[trigger] read_row(rows[i])) is Ok by {
            assert(read_row(rows[i]) == Ok::<CredentialView, DecodeErrorView>(credentials[i]));
        }
    }
    assert(read_rows(rows)->Ok_0 =~= credentials);
}

/// A copy of an optional text.
fn clone_text(text: &Option<String>) -> (copy: Option<String>)
    ensures
        match (*text, copy) {
            (Some(a), Some(b)) => a@ == b@,
            (None, None) => true,
            _ => false,
        },
{
    match text {
        Some(s) => Some(s.clone()),
        None => None,
    }
}

/// The row that inserting `credential` writes: the identifier as its canonical
/// text, both timestamps as RFC 3339 text, and every other field verbatim, an
/// absent description as an absent value.
///
/// A credential whose timestamps lie in the years 0000 to 9999 is read back
/// from its row unchanged in every field.
pub fn insert_credential(credential: &Credential) -> (row: Row)
    ensures
        row@ == stored_row(credential@),
        credential@.is_valid(),
        credential@.is_storable() ==> read_row(row@) == Ok::<CredentialView, DecodeErrorView>(
            credential@,
        ),
{
    let id = uuid_to_string(credential.id);
    let created_at = credential.created_at.to_rfc3339();
    let updated_at = credential.updated_at.to_rfc3339();
    proof {
        lemma_canonical_text_reads_back(credential.id);
    }
    Row {
        id,
        url: credential.url.clone(),
        description: clone_text(&credential.description),
        username: credential.username.clone(),
        password: credential.password.clone(),
        created_at,
        updated_at,
    }
}

/// Reads one fetched row: parses the identifier and both timestamps, the
/// timestamps moved to UTC, and takes every other column verbatim.
///
/// Fails on the first column, in the order `id`, `created_at`, `updated_at`,
/// whose text is malformed, and reports that column and its text.
pub fn credential_from_row(row: &Row) -> (r: Result<Credential, DecodeError>)
    ensures
        match r {
            Ok(credential) => read_row(row@) == Ok::<CredentialView, DecodeErrorView>(
                credential@,
            ) && credential@.is_valid(),
            Err(error) => read_row(row@) == Err::<CredentialView, DecodeErrorView>(error@),
        },
{
    let id = match uuid_parse_str(row.id.as_str()) {
        Some(id) => id,
        None => {
            return Err(DecodeError { column: Column::Id, text: row.id.clone() });
        },
    };
    let created_at = match Timestamp::parse_from_rfc3339(row.created_at.as_str()) {
        Some(t) => t,
        None => {
            return Err(DecodeError { column: Column::CreatedAt, text: row.created_at.clone() });
        },
    };
    let updated_at = match Timestamp::parse_from_rfc3339(row.updated_at.as_str()) {
        Some(t) => t,
        None => {
            return Err(DecodeError { column: Column::UpdatedAt, text: row.updated_at.clone() });
        },
    };
    Ok(
        Credential {
            id,
            url: row.url.clone(),
            description: clone_text(&row.description),
            username: row.username.clone(),
            password: row.password.clone(),
            created_at,
            updated_at,
        },
    )
}

/// Reads every fetched row, in the order fetched.
///
/// Succeeds with one credential per row when every row can be read, so no rows
/// give no credentials. One malformed row fails the whole fetch with the error
/// of the first such row; no partial result is returned.
pub fn get_all_credentials(rows: &[Row]) -> (r: Result<Vec<Credential>, DecodeError>)
    ensures
        match r {
            Ok(credentials) => read_rows(row_views(rows@)) == Ok::<
                Seq<CredentialView>,
                DecodeErrorView,
            >(credential_views(credentials@)) && credentials.len() == rows.len(),
            Err(error) => read_rows(row_views(rows@)) == Err::<
                Seq<CredentialView>,
                DecodeErrorView,
            >(error@),
        },
        rows.len() == 0 ==> r is Ok,
{
    let mut credentials: Vec<Credential> = Vec::new();
    let mut i: usize = 0;
    while i < rows.len()
        invariant
            i <= rows.len(),
            credentials.len() == i,
            forall|j: int|
                0 <= j < i ==> read_row(#[trigger] row_views(rows@)[j]) == Ok::<
                    CredentialView,
                    DecodeErrorView,
                >(credentials@[j]@),
        decreases rows.len() - i,
    {
        match credential_from_row(&rows[i]) {
            Ok(credential) => {
                credentials.push(credential);
            },
            Err(error) => {
                proof {
                    let views = row_views(rows@);
                    assert(views[i as int] == rows@[i as int]@);
                    assert(is_first_malformed(views, i as int));
                    lemma_read_rows_err(views, i as int);
                }
                return Err(error);
            },
        }
        i += 1;
    }
    proof {
        lemma_read_rows_pointwise(row_views(rows@), credential_views(credentials@));
    }
    Ok(credentials)
}

} // verus!
