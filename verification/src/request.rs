//! What a request must bring along before an operation is carried out: the
//! identity of the caller, the parameters of the path and the query, and a body
//! that passes validation.
//!
//! The transport reads these from the request. The functions here decide what
//! a missing or rejected one comes to.

use vstd::prelude::*;
use crate::error::header_source;
use crate::error::invalid_body;
use crate::error::invalid_body_view;
use crate::error::parameter_source;
use crate::error::pointer_source;
use crate::error::required_body;
use crate::error::required_parameter;
use crate::error::single_error;
use crate::error::unauthorized;
use crate::error::ErrorResult;
use crate::error::ErrorResultView;
use crate::validation::rejection;
use crate::validation::validate;
use crate::validation::ValidationErrors;

verus! {

/// The name of the query parameter that carries the version of a write.
pub const VERSION_PARAM: &'static str = "version";

/// The body of a request as the transport found it.
#[derive(Debug, PartialEq, Eq)]
pub enum Payload<T> {
    /// The body cannot be read as what is expected.
    Invalid,
    /// The request has no body.
    Missing,
    /// The body, read.
    Given(T),
}

/// What a request without a valid identity of the caller is answered with.
pub open spec fn unauthorized_view() -> ErrorResultView {
    single_error(500, None, "unauthorized"@, header_source("authorization"@))
}

/// What a request without the parameter `name` is answered with.
pub open spec fn required_parameter_view(name: Seq<char>) -> ErrorResultView {
    single_error(400, None, "required"@, parameter_source(name))
}

/// What a request without a body is answered with.
pub open spec fn required_body_view() -> ErrorResultView {
    single_error(400, None, "required"@, pointer_source("/body"@))
}

/// The identifier of the caller, where the request carries the subject of a
/// verified identity; the request is unauthorized otherwise.
pub fn get_user_id(subject: Option<String>) -> (r: Result<String, ErrorResult>)
    ensures
        match subject {
            Some(user) => r == Ok::<String, ErrorResult>(user),
            None => r is Err && r->Err_0.wf() && r->Err_0@ == unauthorized_view(),
        },
{
    match subject {
        Some(user) => Ok(user),
        None => Err(unauthorized()),
    }
}

/// The value of the path parameter `key`, where the request has one that can
/// be read; the parameter is reported as required otherwise.
pub fn path_param<T>(key: &str, value: Option<T>) -> (r: Result<T, ErrorResult>)
    ensures
        match value {
            Some(v) => r == Ok::<T, ErrorResult>(v),
            None => r is Err && r->Err_0.wf() && r->Err_0@ == required_parameter_view(key@),
        },
{
    match value {
        Some(v) => Ok(v),
        None => Err(required_parameter(key)),
    }
}

/// The version that a write is conditioned on, where the request names one;
/// the parameter `version` is reported as required otherwise.
pub fn query_version(version: Option<i16>) -> (r: Result<i16, ErrorResult>)
    ensures
        match version {
            Some(v) => r == Ok::<i16, ErrorResult>(v),
            None => r is Err && r->Err_0.wf() && r->Err_0@ == required_parameter_view(
                VERSION_PARAM@,
            ),
        },
{
    match version {
        Some(v) => Ok(v),
        None => Err(required_parameter(VERSION_PARAM)),
    }
}

/// The body of a request, where it is there, can be read and passes
/// validation. `outcome` is what the rules said of the body that was read.
///
/// A body that cannot be read is reported as invalid, a missing body as
/// required, and a body that fails validation is rejected with the details of
/// what was found, or as invalid where nothing of what was found can be
/// reported.
pub fn validate_payload<T>(payload: Payload<T>, outcome: Result<(), ValidationErrors>) -> (r:
    Result<T, ErrorResult>)
    ensures
        match payload {
            Payload::Invalid => r is Err && r->Err_0.wf() && r->Err_0@ == invalid_body_view(),
            Payload::Missing => r is Err && r->Err_0.wf() && r->Err_0@ == required_body_view(),
            Payload::Given(value) => match outcome {
                Ok(_) => r == Ok::<T, ErrorResult>(value),
                Err(errors) => r is Err && r->Err_0.wf() && r->Err_0@ == rejection(errors),
            },
        },
{
    match payload {
        Payload::Invalid => Err(invalid_body()),
        Payload::Missing => Err(required_body()),
        Payload::Given(value) => validate(value, outcome),
    }
}

} // verus!
