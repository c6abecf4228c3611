//! Classification of storage failures into the error taxonomy.
//!
//! A failure of the store reaches the library as a [`StorageError`]: a plain
//! description of what the database engine reported. The functions here decide
//! which status, code and pointer the caller gets to see. Nothing of the
//! engine's own diagnostics is passed on.

use vstd::prelude::*;
use convert_case::Case;
use convert_case::Casing;
use regex::Regex;
use crate::error::ErrorDetail;
use crate::error::ErrorResult;
use crate::error::ErrorSource;
use crate::error::id_not_found;
use crate::error::id_pointer;
use crate::error::internal_server;
use crate::error::pointer_source;
use crate::error::single;
use crate::error::single_error;
use crate::error::text_view;
use crate::error::version_conflict;
use crate::error::conflict_source;
use crate::error::ErrorResultView;
use crate::text::last_column;
use crate::text::last_segment;

verus! {

/// The class of constraint that a write violated.
#[derive(Debug, Clone, Copy, PartialEq, Eq)]
pub enum ViolationKind {
    Unique,
    ForeignKey,
    NotNull,
    Check,
    Other,
}

/// What the database engine reported about a statement that it refused.
#[derive(Debug, Clone, PartialEq, Eq)]
pub struct DatabaseFailure {
    pub kind: ViolationKind,
    /// The table that the violated constraint belongs to.
    pub table: Option<String>,
    /// The column that the violated constraint belongs to.
    pub column: Option<String>,
    /// The name of the violated constraint.
    pub constraint: Option<String>,
    /// The engine's detail text, such as `Key (name)=(Widget) already exists.`
    pub detail: Option<String>,
}

/// A failure of a storage operation.
#[derive(Debug, Clone, PartialEq, Eq)]
pub enum StorageError {
    /// A statement that must yield a row yielded none.
    RowNotFound,
    /// The engine refused the statement.
    Database(DatabaseFailure),
    /// Anything else: a lost connection, a decoding failure, a timeout.
    Other,
}

/// The expression that finds the key columns in the detail text of a unique
/// violation. Its first group holds the column list, as in `Key (name, language)`,
/// `Key (last_modified_by)` or `Key (lower(name::text))`. A column name is made
/// of letters, digits and underscores.
pub const UNIQUE_PATTERN: &'static str = r"Key \((?:lower\()?([a-zA-Z0-9_, ]+)+(?:::text)?\)";

/// The pointer used where no field can be named.
pub const DATA_POINTER: &'static str = "/data";

/// What the first capture group of the regular expression `pattern` holds at the
/// leftmost match in `text`; `None` where `pattern` is no valid expression, where
/// nothing matches, or where the group takes no part in the match.
pub uninterp spec fn regex_first_group(pattern: Seq<char>, text: Seq<char>) -> Option<Seq<char>>;

/// `text` rewritten in camel case: split into words at the default boundaries,
/// all in lower case but for the first letter of each word after the first.
pub uninterp spec fn camel_case(text: Seq<char>) -> Seq<char>;

/// Calls `regex::Regex::new` on `pattern`, then `Regex::captures` on `text` and
/// `Captures::get(1)`. The contract only names the text that comes back.
#[verifier::external_body]
fn first_group(pattern: &str, text: &str) -> (r: Option<String>)
    ensures
        text_view(r) == regex_first_group(pattern@, text@),
{
    let re = match Regex::new(pattern) {
        Ok(re) => re,
        Err(_) => return None,
    };
    match re.captures(text) {
        Some(groups) => match groups.get(1) {
            Some(group) => Some(group.as_str().to_owned()),
            None => None,
        },
        None => None,
    }
}

/// Calls `convert_case::Casing::to_case` with `Case::Camel`. The contract only
/// names the text that comes back.
#[verifier::external_body]
fn to_camel_case(text: &str) -> (r: String)
    ensures
        r@ == camel_case(text@),
{
    text.to_case(Case::Camel)
}

/// The pointer to a field of a table.
pub open spec fn field_pointer(table: Seq<char>, field: Seq<char>) -> Seq<char> {
    "/data/"@ + table + "/"@ + field
}

/// The pointer to a table.
pub open spec fn table_pointer(table: Seq<char>) -> Seq<char> {
    "/data/"@ + table
}

/// The pointer to `field` of `table`, or the general pointer where either is unknown.
pub open spec fn field_pointer_or_data(table: Option<Seq<char>>, field: Option<Seq<char>>) -> Seq<
    char,
> {
    match (table, field) {
        (Some(t), Some(f)) => field_pointer(t, f),
        _ => DATA_POINTER@,
    }
}

/// The field that the detail text of a unique violation names: the last of its
/// key columns, in camel case.
pub open spec fn unique_field(detail: Seq<char>) -> Option<Seq<char>> {
    match regex_first_group(UNIQUE_PATTERN@, detail) {
        Some(columns) => Some(camel_case(last_segment(columns))),
        None => None,
    }
}

/// A database name in the spelling of the interface, where there is one.
pub open spec fn camel_view(name: Option<String>) -> Option<Seq<char>> {
    match name {
        Some(n) => Some(camel_case(n@)),
        None => None,
    }
}

/// What a unique violation comes to: status 409, code `duplicate`, and the
/// pointer to the field that the detail text names, or `/data` where the table
/// is unknown, the detail text is missing or it does not have the expected shape.
pub open spec fn unique_outcome(err: DatabaseFailure) -> (int, Seq<char>, Seq<char>) {
    (
        409,
        "duplicate"@,
        field_pointer_or_data(
            text_view(err.table),
            match err.detail {
                Some(d) => unique_field(d@),
                None => None,
            },
        ),
    )
}

/// What a foreign-key violation comes to: status 404, code `not_found`, and the
/// pointer to the table, or `/data` where the table is unknown.
pub open spec fn foreign_key_outcome(err: DatabaseFailure) -> (int, Seq<char>, Seq<char>) {
    (
        404,
        "not_found"@,
        match err.table {
            Some(t) => table_pointer(t@),
            None => DATA_POINTER@,
        },
    )
}

/// What a not-null violation comes to: status 400, code `required`, and the
/// pointer to the column, or `/data` where table or column is unknown.
pub open spec fn not_null_outcome(err: DatabaseFailure) -> (int, Seq<char>, Seq<char>) {
    (400, "required"@, field_pointer_or_data(text_view(err.table), camel_view(err.column)))
}

/// What a check violation comes to: status 400, code `invalid`, and the pointer
/// that names the violated check, or `/data` where table or check is unknown.
pub open spec fn check_outcome(err: DatabaseFailure) -> (int, Seq<char>, Seq<char>) {
    (400, "invalid"@, field_pointer_or_data(text_view(err.table), camel_view(err.constraint)))
}

/// What any other refusal comes to: status 500, code `server_internal`, pointer `/server`.
pub open spec fn other_outcome() -> (int, Seq<char>, Seq<char>) {
    (500, "server_internal"@, "/server"@)
}

/// Status, code and pointer of a refused statement, by the class of the violation.
pub open spec fn classified(err: DatabaseFailure) -> (int, Seq<char>, Seq<char>) {
    match err.kind {
        ViolationKind::Unique => unique_outcome(err),
        ViolationKind::ForeignKey => foreign_key_outcome(err),
        ViolationKind::NotNull => not_null_outcome(err),
        ViolationKind::Check => check_outcome(err),
        ViolationKind::Other => other_outcome(),
    }
}

/// What the caller sees of a refused statement.
pub open spec fn database_failure_view(err: DatabaseFailure) -> ErrorResultView {
    single_error(classified(err).0, None, classified(err).1, pointer_source(classified(err).2))
}

/// What the caller sees of a failed storage operation that is not about one resource.
pub open spec fn database_error_view(err: StorageError) -> ErrorResultView {
    match err {
        StorageError::Database(failure) => database_failure_view(failure),
        _ => single_error(500, None, "server_internal"@, pointer_source("/server"@)),
    }
}

/// What the caller sees of a failed storage operation on the `entity` with
/// identifier `id`; `version` is the version that a conditioned write submitted.
pub open spec fn resource_error_view(
    entity: Seq<char>,
    id: int,
    version: Option<int>,
    err: StorageError,
) -> ErrorResultView {
    match err {
        StorageError::RowNotFound => match version {
            Some(v) => single_error(409, Some(id), "version_conflict"@, conflict_source(entity, v)),
            None => single_error(404, Some(id), "not_found"@, pointer_source(id_pointer(entity))),
        },
        _ => database_error_view(err),
    }
}

/// The pointer to `field` of `table`: `/data/{table}/{field}` where both are
/// known, `/data` where either is missing.
pub fn pointer_to(table: &Option<String>, field: &Option<String>) -> (r: String)
    ensures
        r@ == field_pointer_or_data(text_view(*table), text_view(*field)),
{
    match (table, field) {
        (Some(t), Some(f)) => {
            let mut pointer = String::from_str("/data/");
            pointer.append(t.as_str());
            pointer.append("/");
            pointer.append(f.as_str());
            pointer
        },
        _ => String::from_str(DATA_POINTER),
    }
}

/// The field that the detail text of a unique violation names, where the text
/// has the expected shape.
pub fn unique_field_of(detail: &str) -> (r: Option<String>)
    ensures
        text_view(r) == unique_field(detail@),
{
    match first_group(UNIQUE_PATTERN, detail) {
        Some(columns) => {
            let last = last_column(columns.as_str());
            Some(to_camel_case(last.as_str()))
        },
        None => None,
    }
}

/// A name of the database in the spelling of the interface.
fn camel_name(name: &Option<String>) -> (r: Option<String>)
    ensures
        text_view(r) == camel_view(*name),
{
    match name {
        Some(n) => Some(to_camel_case(n.as_str())),
        None => None,
    }
}

/// A unique constraint was violated: status 409, code `duplicate`, and a pointer
/// to the violated field of the table. Where the table is unknown, the detail
/// text is missing or does not have the expected shape, the pointer is `/data`.
pub fn unique_violation(err: &DatabaseFailure) -> (r: (u16, String, String))
    ensures
        (r.0 as int, r.1@, r.2@) == unique_outcome(*err),
{
    let field = match &err.detail {
        Some(detail) => unique_field_of(detail.as_str()),
        None => None,
    };
    (409, String::from_str("duplicate"), pointer_to(&err.table, &field))
}

/// A foreign key points at nothing: status 404, code `not_found`, and a pointer
/// to the table, or `/data` where the table is unknown.
pub fn foreign_key_violation(err: &DatabaseFailure) -> (r: (u16, String, String))
    ensures
        (r.0 as int, r.1@, r.2@) == foreign_key_outcome(*err),
{
    let pointer = match &err.table {
        Some(t) => {
            let mut pointer = String::from_str("/data/");
            pointer.append(t.as_str());
            pointer
        },
        None => String::from_str(DATA_POINTER),
    };
    (404, String::from_str("not_found"), pointer)
}

/// A value that must be present is missing: status 400, code `required`, and a
/// pointer to the column of the table, or `/data` where either is unknown.
pub fn not_null_violation(err: &DatabaseFailure) -> (r: (u16, String, String))
    ensures
        (r.0 as int, r.1@, r.2@) == not_null_outcome(*err),
{
    let field = camel_name(&err.column);
    (400, String::from_str("required"), pointer_to(&err.table, &field))
}

/// A value fails a check of the table: status 400, code `invalid`, and a pointer
/// that names the violated check of the table, or `/data` where either is unknown.
pub fn check_violation(err: &DatabaseFailure) -> (r: (u16, String, String))
    ensures
        (r.0 as int, r.1@, r.2@) == check_outcome(*err),
{
    let field = camel_name(&err.constraint);
    (400, String::from_str("invalid"), pointer_to(&err.table, &field))
}

/// Any other refusal: status 500, code `server_internal`, pointer `/server`.
pub fn other_violation(err: &DatabaseFailure) -> (r: (u16, String, String))
    ensures
        (r.0 as int, r.1@, r.2@) == other_outcome(),
{
    (500, String::from_str("server_internal"), String::from_str("/server"))
}

/// Status and detail for a refused statement, by the class of the violation.
pub fn parse_detail(err: &DatabaseFailure) -> (r: (u16, ErrorDetail))
    ensures
        single_error(r.0 as int, r.1@.id, r.1@.code, r.1@.source) == database_failure_view(*err),
{
    let (status, code, pointer) = match err.kind {
        ViolationKind::Unique => unique_violation(err),
        ViolationKind::ForeignKey => foreign_key_violation(err),
        ViolationKind::NotNull => not_null_violation(err),
        ViolationKind::Check => check_violation(err),
        ViolationKind::Other => other_violation(err),
    };
    let detail = ErrorDetail {
        id: None,
        code,
        source: ErrorSource { pointer: Some(pointer), parameter: None, header: None, meta: None },
    };
    (status, detail)
}

/// Turns a failed storage operation into what the caller sees. A refused
/// statement is classified by [`parse_detail`]; every other failure is an
/// internal error of the server.
pub fn database_error(err: StorageError) -> (r: ErrorResult)
    ensures
        r.wf(),
        r@ == database_error_view(err),
{
    match err {
        StorageError::Database(failure) => {
            let (status, detail) = parse_detail(&failure);
            single(status, detail)
        },
        _ => internal_server(),
    }
}

/// Turns a failed storage operation on one resource into what the caller sees.
/// A missing row is a version conflict where the operation was conditioned on
/// `version`, and an unknown identifier where it was not; every other failure
/// goes through [`database_error`].
pub fn resource_error(entity: &str, id: i64, version: Option<i16>, err: StorageError) -> (r:
    ErrorResult)
    ensures
        r.wf(),
        r@ == resource_error_view(
            entity@,
            id as int,
            match version {
                Some(v) => Some(v as int),
                None => None,
            },
            err,
        ),
{
    match err {
        StorageError::RowNotFound => match version {
            Some(version) => version_conflict(entity, id, version),
            None => id_not_found(entity, id),
        },
        _ => database_error(err),
    }
}

/// Turns the failure of a write that is conditioned on `version` into what the
/// caller sees. `stored` tells whether a probe found the identifier at all.
///
/// A write that found no row is reported as not found where the identifier is
/// not stored, and as a version conflict that carries the submitted version
/// where it is. Every other failure goes through [`database_error`].
pub fn conditioned_write_error(
    entity: &str,
    id: i64,
    version: i16,
    stored: bool,
    err: StorageError,
) -> (r: ErrorResult)
    ensures
        r.wf(),
        r@ == resource_error_view(
            entity@,
            id as int,
            if stored {
                Some(version as int)
            } else {
                None
            },
            err,
        ),
{
    if stored {
        resource_error(entity, id, Some(version), err)
    } else {
        resource_error(entity, id, None, err)
    }
}

} // verus!
