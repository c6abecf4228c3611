//! The error taxonomy: what a failed request reports to its caller.
//!
//! An [`ErrorResult`] carries an HTTP-equivalent status and an ordered list of
//! [`ErrorDetail`]s. Every detail names a stable, machine-readable code and the
//! place in the request that it is about.

use vstd::prelude::*;

verus! {

/// A value attached to an error as structured context.
#[derive(Debug, Clone, PartialEq, Eq)]
pub enum MetaValue {
    /// A whole number, such as a version or an index.
    Integer(i128),
    /// A piece of text, such as the name of a key.
    Text(String),
    /// Any other value, kept as the JSON text that denotes it.
    Json(String),
}

/// What a [`MetaValue`] stands for.
pub enum MetaValueView {
    Integer(int),
    Text(Seq<char>),
    Json(Seq<char>),
}

impl View for MetaValue {
    type V = MetaValueView;

    open spec fn view(&self) -> MetaValueView {
        match self {
            MetaValue::Integer(n) => MetaValueView::Integer(*n as int),
            MetaValue::Text(s) => MetaValueView::Text(s@),
            MetaValue::Json(s) => MetaValueView::Json(s@),
        }
    }
}

/// One named value of an error's structured context.
#[derive(Debug, Clone, PartialEq, Eq)]
pub struct MetaEntry {
    pub key: String,
    pub value: MetaValue,
}

impl View for MetaEntry {
    type V = (Seq<char>, MetaValueView);

    open spec fn view(&self) -> (Seq<char>, MetaValueView) {
        (self.key@, self.value@)
    }
}

/// Where in the request an error comes from.
#[derive(Debug, Clone, PartialEq, Eq)]
pub struct ErrorSource {
    /// A slash-separated path into the request body or the stored data.
    pub pointer: Option<String>,
    /// The name of a path or query parameter.
    pub parameter: Option<String>,
    /// The name of a request header.
    pub header: Option<String>,
    /// Structured context, in the order in which it was recorded.
    pub meta: Option<Vec<MetaEntry>>,
}

/// What an [`ErrorSource`] stands for.
pub struct ErrorSourceView {
    pub pointer: Option<Seq<char>>,
    pub parameter: Option<Seq<char>>,
    pub header: Option<Seq<char>>,
    pub meta: Option<Seq<(Seq<char>, MetaValueView)>>,
}

/// The text that an optional string holds.
pub open spec fn text_view(value: Option<String>) -> Option<Seq<char>> {
    match value {
        Some(s) => Some(s@),
        None => None,
    }
}

/// The entries that a list of context values holds, in order.
pub open spec fn meta_view(entries: Seq<MetaEntry>) -> Seq<(Seq<char>, MetaValueView)> {
    entries.map_values(|e: MetaEntry| e@)
}

impl View for ErrorSource {
    type V = ErrorSourceView;

    open spec fn view(&self) -> ErrorSourceView {
        ErrorSourceView {
            pointer: text_view(self.pointer),
            parameter: text_view(self.parameter),
            header: text_view(self.header),
            meta: match self.meta {
                Some(entries) => Some(meta_view(entries@)),
                None => None,
            },
        }
    }
}

/// One error: an optional identifier of the resource, a code and a source.
#[derive(Debug, Clone, PartialEq, Eq)]
pub struct ErrorDetail {
    pub id: Option<i64>,
    pub code: String,
    pub source: ErrorSource,
}

/// What an [`ErrorDetail`] stands for.
pub struct ErrorDetailView {
    pub id: Option<int>,
    pub code: Seq<char>,
    pub source: ErrorSourceView,
}

impl View for ErrorDetail {
    type V = ErrorDetailView;

    open spec fn view(&self) -> ErrorDetailView {
        ErrorDetailView {
            id: match self.id {
                Some(id) => Some(id as int),
                None => None,
            },
            code: self.code@,
            source: self.source@,
        }
    }
}

/// A failed request: a status and the errors that explain it.
#[derive(Debug, Clone, PartialEq, Eq)]
pub struct ErrorResult {
    pub status: u16,
    pub errors: Vec<ErrorDetail>,
}

/// What an [`ErrorResult`] stands for.
pub struct ErrorResultView {
    pub status: int,
    pub errors: Seq<ErrorDetailView>,
}

/// The details that a list of errors holds, in order.
pub open spec fn details_view(errors: Seq<ErrorDetail>) -> Seq<ErrorDetailView> {
    errors.map_values(|d: ErrorDetail| d@)
}

impl View for ErrorResult {
    type V = ErrorResultView;

    open spec fn view(&self) -> ErrorResultView {
        ErrorResultView { status: self.status as int, errors: details_view(self.errors@) }
    }
}

impl ErrorResult {
    /// A result is well formed when it explains itself: it holds at least one detail.
    pub open spec fn wf(&self) -> bool {
        self.errors@.len() >= 1
    }
}

/// A source that names only a pointer.
pub open spec fn pointer_source(pointer: Seq<char>) -> ErrorSourceView {
    ErrorSourceView { pointer: Some(pointer), parameter: None, header: None, meta: None }
}

/// A source that names only a parameter.
pub open spec fn parameter_source(parameter: Seq<char>) -> ErrorSourceView {
    ErrorSourceView { pointer: None, parameter: Some(parameter), header: None, meta: None }
}

/// A source that names only a header.
pub open spec fn header_source(header: Seq<char>) -> ErrorSourceView {
    ErrorSourceView { pointer: None, parameter: None, header: Some(header), meta: None }
}

/// The result that holds exactly one detail.
pub open spec fn single_error(
    status: int,
    id: Option<int>,
    code: Seq<char>,
    source: ErrorSourceView,
) -> ErrorResultView {
    ErrorResultView { status, errors: seq![ErrorDetailView { id, code, source }] }
}

/// The pointer to the identifier of a stored `entity`.
pub open spec fn id_pointer(entity: Seq<char>) -> Seq<char> {
    "/data/"@ + entity + "/id"@
}

/// The pointer to the version of a stored `entity`.
pub open spec fn version_pointer(entity: Seq<char>) -> Seq<char> {
    "/data/"@ + entity + "/version"@
}

/// Wraps one detail into a result with the given status.
pub fn single(status: u16, detail: ErrorDetail) -> (r: ErrorResult)
    ensures
        r.wf(),
        r@ == single_error(status as int, detail@.id, detail@.code, detail@.source),
{
    let mut errors: Vec<ErrorDetail> = Vec::new();
    errors.push(detail);
    let r = ErrorResult { status, errors };
    assert(r@.errors =~= seq![detail@]);
    r
}

/// An unclassified failure of the server: status 500, code `server_internal`,
/// pointer `/server`. Nothing of the failure itself is exposed.
pub fn internal_server() -> (r: ErrorResult)
    ensures
        r.wf(),
        r@ == single_error(500, None, "server_internal"@, pointer_source("/server"@)),
{
    single(
        500,
        ErrorDetail {
            id: None,
            code: String::from_str("server_internal"),
            source: ErrorSource {
                pointer: Some(String::from_str("/server")),
                parameter: None,
                header: None,
                meta: None,
            },
        },
    )
}

/// The caller's identity is missing or invalid: status 500, code `unauthorized`,
/// header `authorization`.
pub fn unauthorized() -> (r: ErrorResult)
    ensures
        r.wf(),
        r@ == single_error(500, None, "unauthorized"@, header_source("authorization"@)),
{
    single(
        500,
        ErrorDetail {
            id: None,
            code: String::from_str("unauthorized"),
            source: ErrorSource {
                pointer: None,
                parameter: None,
                header: Some(String::from_str("authorization")),
                meta: None,
            },
        },
    )
}

/// The request has no body: status 400, code `required`, pointer `/body`.
pub fn required_body() -> (r: ErrorResult)
    ensures
        r.wf(),
        r@ == single_error(400, None, "required"@, pointer_source("/body"@)),
{
    single(
        400,
        ErrorDetail {
            id: None,
            code: String::from_str("required"),
            source: ErrorSource {
                pointer: Some(String::from_str("/body")),
                parameter: None,
                header: None,
                meta: None,
            },
        },
    )
}

/// The parameter `name` is missing: status 400, code `required`.
pub fn required_parameter(name: &str) -> (r: ErrorResult)
    ensures
        r.wf(),
        r@ == single_error(400, None, "required"@, parameter_source(name@)),
{
    single(
        400,
        ErrorDetail {
            id: None,
            code: String::from_str("required"),
            source: ErrorSource {
                pointer: None,
                parameter: Some(String::from_str(name)),
                header: None,
                meta: None,
            },
        },
    )
}

/// The parameter `name` has a value that cannot be used: status 400, code `invalid`.
pub fn invalid_parameter(name: String) -> (r: ErrorResult)
    ensures
        r.wf(),
        r@ == single_error(400, None, "invalid"@, parameter_source(name@)),
{
    single(
        400,
        ErrorDetail {
            id: None,
            code: String::from_str("invalid"),
            source: ErrorSource { pointer: None, parameter: Some(name), header: None, meta: None },
        },
    )
}

/// No live `entity` has the identifier `id`: status 404, code `not_found`,
/// pointer `/data/{entity}/id`.
pub fn id_not_found(entity: &str, id: i64) -> (r: ErrorResult)
    ensures
        r.wf(),
        r@ == single_error(404, Some(id as int), "not_found"@, pointer_source(id_pointer(entity@))),
{
    let mut pointer = String::from_str("/data/");
    pointer.append(entity);
    pointer.append("/id");
    single(
        404,
        ErrorDetail {
            id: Some(id),
            code: String::from_str("not_found"),
            source: ErrorSource {
                pointer: Some(pointer),
                parameter: None,
                header: None,
                meta: None,
            },
        },
    )
}

/// The source of a version conflict: the pointer to the version of `entity`, and
/// the version that the caller submitted as the one context value `version`.
pub open spec fn conflict_source(entity: Seq<char>, version: int) -> ErrorSourceView {
    ErrorSourceView {
        pointer: Some(version_pointer(entity)),
        parameter: None,
        header: None,
        meta: Some(seq![("version"@, MetaValueView::Integer(version))]),
    }
}

/// The `entity` with identifier `id` exists, but not at the submitted `version`:
/// status 409, code `version_conflict`, pointer `/data/{entity}/version`, and the
/// submitted version as context.
pub fn version_conflict(entity: &str, id: i64, version: i16) -> (r: ErrorResult)
    ensures
        r.wf(),
        r@ == single_error(
            409,
            Some(id as int),
            "version_conflict"@,
            conflict_source(entity@, version as int),
        ),
{
    let mut pointer = String::from_str("/data/");
    pointer.append(entity);
    pointer.append("/version");
    let mut meta: Vec<MetaEntry> = Vec::new();
    meta.push(MetaEntry { key: String::from_str("version"), value: MetaValue::Integer(version as i128) });
    assert(meta_view(meta@) =~= seq![("version"@, MetaValueView::Integer(version as int))]);
    single(
        409,
        ErrorDetail {
            id: Some(id),
            code: String::from_str("version_conflict"),
            source: ErrorSource {
                pointer: Some(pointer),
                parameter: None,
                header: None,
                meta: Some(meta),
            },
        },
    )
}

/// No route matches the request: status 404, code `not_found`, pointer `/path`.
pub fn path_not_found() -> (r: ErrorResult)
    ensures
        r.wf(),
        r@ == single_error(404, None, "not_found"@, pointer_source("/path"@)),
{
    single(
        404,
        ErrorDetail {
            id: None,
            code: String::from_str("not_found"),
            source: ErrorSource {
                pointer: Some(String::from_str("/path")),
                parameter: None,
                header: None,
                meta: None,
            },
        },
    )
}

/// What a request with a body that cannot be used is answered with.
pub open spec fn invalid_body_view() -> ErrorResultView {
    single_error(400, None, "invalid"@, pointer_source("/body"@))
}

/// The request body cannot be read as what is expected: status 400, code
/// `invalid`, pointer `/body`.
pub fn invalid_body() -> (r: ErrorResult)
    ensures
        r.wf(),
        r@ == invalid_body_view(),
{
    single(
        400,
        ErrorDetail {
            id: None,
            code: String::from_str("invalid"),
            source: ErrorSource {
                pointer: Some(String::from_str("/body")),
                parameter: None,
                header: None,
                meta: None,
            },
        },
    )
}

} // verus!
