//! The operations as a caller reaches them: each checks what the request
//! brings along, carries the operation out, and answers with a status and a
//! result, or with the errors of a rejected request.
//!
//! A request is checked in a fixed order, and the first check that fails
//! decides the answer. Nothing is read from or written to the repository
//! before all checks have passed.

use vstd::prelude::*;
use crate::error::text_view;
use crate::error::ErrorResult;
use crate::error::ErrorResultView;
use crate::model::duplicate_rejection;
use crate::model::SampleDetail;
use crate::model::SampleList;
use crate::model::SampleRequest;
use crate::model::SampleSeekFilter;
use crate::page::page_offset;
use crate::page::requested_page;
use crate::page::requested_size;
use crate::page::Page;
use crate::page::PageRequest;
use crate::request::get_user_id;
use crate::error::invalid_body_view;
use crate::request::path_param;
use crate::request::query_version;
use crate::request::required_body_view;
use crate::request::required_parameter_view;
use crate::request::unauthorized_view;
use crate::request::validate_payload;
use crate::request::Payload;
use crate::request::VERSION_PARAM;
use crate::seek::Seek;
use crate::seek::SeekRequest;
use crate::service::create_answers;
use crate::service::delete_answers;
use crate::service::get_answers;
use crate::service::page_answers;
use crate::service::seek_answers;
use crate::service::update_answers;
use crate::service::SampleService;
use crate::translation::unique_translations;

verus! {

/// The status of an answer that carries what was asked for.
pub const OK: u16 = 200;

/// The status of an answer to a write that stored a sample.
pub const CREATED: u16 = 201;

/// The status of an answer that carries nothing.
pub const NO_CONTENT: u16 = 204;

/// The name of the path parameter that carries the identifier of a sample.
pub const ID_PARAM: &'static str = "id";

/// Why the body of a write is rejected, where it is: it cannot be read; it is
/// missing; or two of its translations share a language or an ordinal.
pub open spec fn payload_rejection(payload: Payload<SampleRequest>) -> Option<ErrorResultView> {
    match payload {
        Payload::Invalid => Some(invalid_body_view()),
        Payload::Missing => Some(required_body_view()),
        Payload::Given(request) => if unique_translations(request.translations@) {
            None
        } else {
            Some(duplicate_rejection(request.translations@))
        },
    }
}

/// Why a request to create a sample is rejected before the repository is
/// touched, where it is: the caller is unknown, or the body is rejected.
pub open spec fn create_rejection(user_id: Option<String>, payload: Payload<SampleRequest>)
    -> Option<ErrorResultView> {
    if user_id is None {
        Some(unauthorized_view())
    } else {
        payload_rejection(payload)
    }
}

/// Why a request to update a sample is rejected before the repository is
/// touched, where it is: the caller is unknown; the identifier is missing; the
/// body is rejected; or the version is missing.
pub open spec fn update_rejection(
    user_id: Option<String>,
    id: Option<i64>,
    payload: Payload<SampleRequest>,
    version: Option<i16>,
) -> Option<ErrorResultView> {
    if user_id is None {
        Some(unauthorized_view())
    } else if id is None {
        Some(required_parameter_view(ID_PARAM@))
    } else if payload_rejection(payload) is Some {
        payload_rejection(payload)
    } else if version is None {
        Some(required_parameter_view(VERSION_PARAM@))
    } else {
        None
    }
}

/// Why a request to delete a sample is rejected before the repository is
/// touched, where it is: the caller is unknown; the identifier is missing; or
/// the version is missing.
pub open spec fn delete_rejection(user_id: Option<String>, id: Option<i64>, version: Option<i16>)
    -> Option<ErrorResultView> {
    if user_id is None {
        Some(unauthorized_view())
    } else if id is None {
        Some(required_parameter_view(ID_PARAM@))
    } else if version is None {
        Some(required_parameter_view(VERSION_PARAM@))
    } else {
        None
    }
}

/// The answer of an operation without the status.
pub open spec fn without_status<T>(r: Result<(u16, T), ErrorResult>) -> Result<T, ErrorResult> {
    match r {
        Ok(answer) => Ok(answer.1),
        Err(error) => Err(error),
    }
}

/// The body of a write, where it is there, can be read and holds no two
/// translations with the same language or ordinal.
fn accept_payload(payload: Payload<SampleRequest>) -> (r: Result<SampleRequest, ErrorResult>)
    ensures
        match payload_rejection(payload) {
            Some(rejection) => r is Err && r->Err_0.wf() && r->Err_0@ == rejection,
            None => payload is Given && r == Ok::<SampleRequest, ErrorResult>(payload->Given_0),
        },
{
    let outcome = match &payload {
        Payload::Given(request) => request.validate(),
        _ => Ok(()),
    };
    validate_payload(payload, outcome)
}

/// Creates a sample with its translations for the caller `user_id` at the
/// instant `now`, and answers with status 201 and the new sample.
///
/// The request is rejected, and nothing is stored, where the caller is
/// unknown, where the body is missing or cannot be read, and where two of the
/// translations share a language or an ordinal.
pub fn create(
    service: &mut SampleService,
    user_id: Option<String>,
    payload: Payload<SampleRequest>,
    now: i128,
) -> (r: Result<(u16, SampleDetail), ErrorResult>)
    requires
        old(service).wf(),
    ensures
        final(service).wf(),
        match create_rejection(user_id, payload) {
            Some(rejection) => {
                &&& r is Err
                &&& r->Err_0.wf()
                &&& r->Err_0@ == rejection
                &&& final(service).repository@ == old(service).repository@
            },
            None => {
                &&& r is Ok ==> r->Ok_0.0 == CREATED
                &&& create_answers(
                    old(service).repository@,
                    final(service).repository@,
                    payload->Given_0@,
                    user_id->Some_0@,
                    now as int,
                    without_status(r),
                )
            },
        },
{
    let user = match get_user_id(user_id) {
        Ok(user) => user,
        Err(error) => {
            return Err(error);
        },
    };
    let sample = match accept_payload(payload) {
        Ok(sample) => sample,
        Err(error) => {
            return Err(error);
        },
    };
    match service.create(sample, user, now) {
        Ok(result) => Ok((CREATED, result)),
        Err(error) => Err(error),
    }
}

/// Updates the sample `id` at `version` with the body of the request for the
/// caller `user_id` at the instant `now`, and answers with status 201 and the
/// sample as it is stored then.
///
/// The request is rejected, and nothing is written, where the caller is
/// unknown, where the identifier is missing, where the body is missing or
/// cannot be read, where two of the translations share a language or an
/// ordinal, and where the version is missing.
pub fn update(
    service: &mut SampleService,
    user_id: Option<String>,
    id: Option<i64>,
    payload: Payload<SampleRequest>,
    version: Option<i16>,
    now: i128,
) -> (r: Result<(u16, SampleDetail), ErrorResult>)
    requires
        old(service).wf(),
    ensures
        final(service).wf(),
        match update_rejection(user_id, id, payload, version) {
            Some(rejection) => {
                &&& r is Err
                &&& r->Err_0.wf()
                &&& r->Err_0@ == rejection
                &&& final(service).repository@ == old(service).repository@
            },
            None => {
                &&& r is Ok ==> r->Ok_0.0 == CREATED
                &&& update_answers(
                    old(service).repository@,
                    final(service).repository@,
                    id->Some_0 as int,
                    payload->Given_0@,
                    version->Some_0 as int,
                    user_id->Some_0@,
                    now as int,
                    without_status(r),
                )
            },
        },
{
    let user = match get_user_id(user_id) {
        Ok(user) => user,
        Err(error) => {
            return Err(error);
        },
    };
    let id = match path_param(ID_PARAM, id) {
        Ok(id) => id,
        Err(error) => {
            return Err(error);
        },
    };
    let sample = match accept_payload(payload) {
        Ok(sample) => sample,
        Err(error) => {
            return Err(error);
        },
    };
    let version = match query_version(version) {
        Ok(version) => version,
        Err(error) => {
            return Err(error);
        },
    };
    match service.update(id, sample, version, user, now) {
        Ok(result) => Ok((CREATED, result)),
        Err(error) => Err(error),
    }
}

/// Deletes the sample `id` at `version` for the caller `user_id` at the
/// instant `now`, and answers with status 204.
///
/// The request is rejected, and nothing is written, where the caller is
/// unknown and where the identifier or the version is missing.
pub fn delete(
    service: &mut SampleService,
    user_id: Option<String>,
    id: Option<i64>,
    version: Option<i16>,
    now: i128,
) -> (r: Result<(u16, ()), ErrorResult>)
    requires
        old(service).wf(),
    ensures
        final(service).wf(),
        match delete_rejection(user_id, id, version) {
            Some(rejection) => {
                &&& r is Err
                &&& r->Err_0.wf()
                &&& r->Err_0@ == rejection
                &&& final(service).repository@ == old(service).repository@
            },
            None => {
                &&& r is Ok ==> r->Ok_0.0 == NO_CONTENT
                &&& delete_answers(
                    old(service).repository@,
                    final(service).repository@,
                    id->Some_0 as int,
                    version->Some_0 as int,
                    user_id->Some_0@,
                    now as int,
                    without_status(r),
                )
            },
        },
{
    let user = match get_user_id(user_id) {
        Ok(user) => user,
        Err(error) => {
            return Err(error);
        },
    };
    let id = match path_param(ID_PARAM, id) {
        Ok(id) => id,
        Err(error) => {
            return Err(error);
        },
    };
    let version = match query_version(version) {
        Ok(version) => version,
        Err(error) => {
            return Err(error);
        },
    };
    match service.delete(id, version, user, now) {
        Ok(_) => Ok((NO_CONTENT, ())),
        Err(error) => Err(error),
    }
}

/// Reads the sample `id` with all its translations, and answers with status
/// 200 and the sample. A missing identifier is reported as required.
pub fn get(service: &SampleService, id: Option<i64>, language: Option<String>) -> (r: Result<
    (u16, SampleDetail),
    ErrorResult,
>)
    ensures
        match id {
            Some(id) => {
                &&& r is Ok ==> r->Ok_0.0 == OK
                &&& get_answers(
                    service.repository@,
                    id as int,
                    false,
                    text_view(language),
                    without_status(r),
                )
            },
            None => r is Err && r->Err_0.wf() && r->Err_0@ == required_parameter_view(ID_PARAM@),
        },
{
    let id = match path_param(ID_PARAM, id) {
        Ok(id) => id,
        Err(error) => {
            return Err(error);
        },
    };
    match service.get(id, false, &language) {
        Ok(result) => Ok((OK, result)),
        Err(error) => Err(error),
    }
}

/// One page of the offset-paginated listing of samples whose name passes
/// `query`, and status 200. `number` and `size` are the values of the query
/// parameters `page` and `size`, where the request has them.
pub fn page(
    service: &SampleService,
    query: Option<String>,
    number: Option<i64>,
    size: Option<i16>,
) -> (r: Result<(u16, Page<SampleList>), ErrorResult>)
    requires
        page_offset(requested_page(number) as int, requested_size(size) as int) <= i64::MAX,
    ensures
        r is Ok ==> r->Ok_0.0 == OK,
        page_answers(
            service.repository@,
            text_view(query),
            PageRequest::requested(number, size),
            without_status(r),
        ),
{
    let page_request = PageRequest::read(number, size);
    match service.page(&query, &page_request) {
        Ok(result) => Ok((OK, result)),
        Err(error) => Err(error),
    }
}

/// One page of the keyset-paginated listing of samples that pass `query`,
/// shown in `language`, and status 200. `size`, `created_at` and `id` are the
/// values of the query parameters `size`, `createdAt` and `id`, where the
/// request has them.
pub fn seek(
    service: &SampleService,
    language: Option<String>,
    query: Option<String>,
    size: Option<i16>,
    created_at: Option<&str>,
    id: Option<i64>,
) -> (r: Result<(u16, Seek<SampleList>), ErrorResult>)
    ensures
        r is Ok ==> r->Ok_0.0 == OK,
        seek_answers(
            service.repository@,
            text_view(language),
            text_view(query),
            SeekRequest::requested(
                size,
                match created_at {
                    Some(text) => Some(text@),
                    None => None,
                },
                id,
            ),
            without_status(r),
        ),
{
    let filter = SampleSeekFilter { language, query };
    let seek_request = SeekRequest::read(size, created_at, id);
    match service.seek(&filter, &seek_request) {
        Ok(result) => Ok((OK, result)),
        Err(error) => Err(error),
    }
}

} // verus!
