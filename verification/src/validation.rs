//! Validation failures and how they are reported to the caller.
//!
//! The rules that check single fields live with the caller. What they found
//! reaches the library as [`ValidationErrors`], and [`validate`] turns it into
//! the errors of a rejected request: one detail per failed rule, with a pointer
//! into the request body.

use vstd::prelude::*;
use crate::error::details_view;
use crate::error::invalid_body;
use crate::error::invalid_body_view;
use crate::error::meta_view;
use crate::error::ErrorDetail;
use crate::error::ErrorDetailView;
use crate::error::ErrorResult;
use crate::error::ErrorResultView;
use crate::error::ErrorSource;
use crate::error::ErrorSourceView;
use crate::error::MetaEntry;
use crate::error::MetaValue;
use crate::error::MetaValueView;
use crate::text::decimal;
use crate::text::push_decimal;

verus! {

/// One rule that a value failed.
#[derive(Debug, Clone, PartialEq, Eq)]
pub struct ValidationError {
    /// The name of the rule, such as `length` or `duplicate`.
    pub code: String,
    /// A message for people, where the rule has one.
    pub message: Option<String>,
    /// The parameters of the rule, in the order in which they were recorded.
    pub params: Vec<MetaEntry>,
}

/// What a [`ValidationError`] stands for.
pub struct ValidationErrorView {
    pub code: Seq<char>,
    pub message: Option<Seq<char>>,
    pub params: Seq<(Seq<char>, MetaValueView)>,
}

impl View for ValidationError {
    type V = ValidationErrorView;

    open spec fn view(&self) -> ValidationErrorView {
        ValidationErrorView {
            code: self.code@,
            message: match self.message {
                Some(m) => Some(m@),
                None => None,
            },
            params: meta_view(self.params@),
        }
    }
}

/// What was found wrong with one field.
#[derive(Debug, PartialEq, Eq)]
pub enum ValidationErrorsKind {
    /// The field is a structure, and these are the failures of its own fields.
    Struct(Box<ValidationErrors>),
    /// The field is a list, and these are the failures of its items.
    List(Vec<ListEntry>),
    /// The rules that the field itself failed.
    Field(Vec<ValidationError>),
}

/// The failures of one item of a list.
#[derive(Debug, PartialEq, Eq)]
pub struct ListEntry {
    pub index: usize,
    pub errors: Box<ValidationErrors>,
}

/// The failures of one field of a structure.
#[derive(Debug, PartialEq, Eq)]
pub struct FieldEntry {
    pub field: String,
    pub kind: ValidationErrorsKind,
}

/// The failures of a structure, field by field.
#[derive(Debug, PartialEq, Eq)]
pub struct ValidationErrors {
    pub entries: Vec<FieldEntry>,
}

/// The name of the parameter that repeats the rejected value. It is not passed on.
pub const VALUE_PARAM: &'static str = "value";

/// The parameters that are passed on to the caller: all but the one that
/// repeats the rejected value, in order.
pub open spec fn passed_params(params: Seq<(Seq<char>, MetaValueView)>) -> Seq<
    (Seq<char>, MetaValueView),
>
    decreases params.len(),
{
    if params.len() == 0 {
        seq![]
    } else if params.last().0 == VALUE_PARAM@ {
        passed_params(params.drop_last())
    } else {
        passed_params(params.drop_last()).push(params.last())
    }
}

/// The detail that reports one failed rule at `pointer`: the rule's name as the
/// code, and its passed-on parameters as context where there are any.
pub open spec fn detail_of(pointer: Seq<char>, err: ValidationErrorView) -> ErrorDetailView {
    ErrorDetailView {
        id: None,
        code: err.code,
        source: ErrorSourceView {
            pointer: Some(pointer),
            parameter: None,
            header: None,
            meta: if passed_params(err.params).len() > 0 {
                Some(passed_params(err.params))
            } else {
                None
            },
        },
    }
}

/// The pointer to a field of the request body.
pub open spec fn body_pointer(field: Seq<char>) -> Seq<char> {
    "/body/"@ + field
}

/// The details for the rules that one field failed, in order.
pub open spec fn field_details(field: Seq<char>, errors: Seq<ValidationError>) -> Seq<
    ErrorDetailView,
> {
    errors.map_values(|e: ValidationError| detail_of(body_pointer(field), e@))
}

/// The name under which the field `key` of item `index` of the list `field` is reported.
pub open spec fn item_field(field: Seq<char>, index: nat, key: Seq<char>) -> Seq<char> {
    field + "/"@ + decimal(index) + "/"@ + key
}

/// The details for the first `n` fields of a nested structure. Only rules that
/// its fields themselves failed are reported, each under the field's own name.
pub open spec fn struct_details_upto(entries: Seq<FieldEntry>, n: int) -> Seq<ErrorDetailView>
    decreases n,
{
    if n <= 0 {
        seq![]
    } else {
        struct_details_upto(entries, n - 1) + match entries[n - 1].kind {
            ValidationErrorsKind::Field(errors) => field_details(entries[n - 1].field@, errors@),
            _ => seq![],
        }
    }
}

/// The details for a nested structure.
pub open spec fn struct_details(errors: ValidationErrors) -> Seq<ErrorDetailView> {
    struct_details_upto(errors.entries@, errors.entries@.len() as int)
}

/// The details for the first `n` fields of item `index` of the list `field`.
pub open spec fn item_details_upto(
    field: Seq<char>,
    index: nat,
    entries: Seq<FieldEntry>,
    n: int,
) -> Seq<ErrorDetailView>
    decreases n,
{
    if n <= 0 {
        seq![]
    } else {
        item_details_upto(field, index, entries, n - 1) + match entries[n - 1].kind {
            ValidationErrorsKind::Field(errors) => field_details(
                item_field(field, index, entries[n - 1].field@),
                errors@,
            ),
            _ => seq![],
        }
    }
}

/// The details for the first `n` failed items of the list `field`.
pub open spec fn list_details_upto(field: Seq<char>, items: Seq<ListEntry>, n: int) -> Seq<
    ErrorDetailView,
>
    decreases n,
{
    if n <= 0 {
        seq![]
    } else {
        list_details_upto(field, items, n - 1) + item_details_upto(
            field,
            items[n - 1].index as nat,
            items[n - 1].errors.entries@,
            items[n - 1].errors.entries@.len() as int,
        )
    }
}

/// The details for the failed items of the list `field`.
pub open spec fn list_details(field: Seq<char>, items: Seq<ListEntry>) -> Seq<ErrorDetailView> {
    list_details_upto(field, items, items.len() as int)
}

/// The details for one field of the request body.
pub open spec fn entry_details(entry: FieldEntry) -> Seq<ErrorDetailView> {
    match entry.kind {
        ValidationErrorsKind::Struct(errors) => struct_details(*errors),
        ValidationErrorsKind::List(items) => list_details(entry.field@, items@),
        ValidationErrorsKind::Field(errors) => field_details(entry.field@, errors@),
    }
}

/// The details for the first `n` fields of the request body.
pub open spec fn validation_details_upto(entries: Seq<FieldEntry>, n: int) -> Seq<ErrorDetailView>
    decreases n,
{
    if n <= 0 {
        seq![]
    } else {
        validation_details_upto(entries, n - 1) + entry_details(entries[n - 1])
    }
}

/// The details for all that was found wrong with a request body.
pub open spec fn validation_details(errors: ValidationErrors) -> Seq<ErrorDetailView> {
    validation_details_upto(errors.entries@, errors.entries@.len() as int)
}

fn copy_value(value: &MetaValue) -> (r: MetaValue)
    ensures
        r@ == value@,
{
    match value {
        MetaValue::Integer(n) => MetaValue::Integer(*n),
        MetaValue::Text(s) => MetaValue::Text(s.clone()),
        MetaValue::Json(s) => MetaValue::Json(s.clone()),
    }
}

/// Turns one failed rule into the detail that reports it at `pointer`.
pub fn map_error_detail(pointer: &str, err: &ValidationError) -> (r: ErrorDetail)
    ensures
        r@ == detail_of(pointer@, err@),
{
    let value_key = String::from_str(VALUE_PARAM);
    let mut params: Vec<MetaEntry> = Vec::new();
    let n = err.params.len();
    let mut i: usize = 0;
    while i < n
        invariant
            i <= n,
            n == err.params@.len(),
            value_key@ == VALUE_PARAM@,
            meta_view(params@) == passed_params(meta_view(err.params@.take(i as int))),
        decreases n - i,
    {
        let entry = &err.params[i];
        proof {
            let before = meta_view(err.params@.take(i as int));
            let now = meta_view(err.params@.take(i + 1));
            assert(now.drop_last() =~= before);
            assert(now.last() == entry@);
        }
        if !(entry.key == value_key) {
            let ghost old_params = params@;
            params.push(MetaEntry { key: entry.key.clone(), value: copy_value(&entry.value) });
            assert(meta_view(params@) =~= meta_view(old_params).push(entry@));
        }
        i = i + 1;
    }
    assert(err.params@.take(n as int) =~= err.params@);
    let meta = if params.len() > 0 {
        Some(params)
    } else {
        None
    };
    ErrorDetail {
        id: None,
        code: err.code.clone(),
        source: ErrorSource {
            pointer: Some(String::from_str(pointer)),
            parameter: None,
            header: None,
            meta,
        },
    }
}

/// Appends the details for the rules that `field` failed to `out`.
fn push_field_errors(out: &mut Vec<ErrorDetail>, field: &str, errors: &Vec<ValidationError>)
    ensures
        details_view(final(out)@) == details_view(old(out)@) + field_details(field@, errors@),
{
    let mut pointer = String::from_str("/body/");
    pointer.append(field);
    let n = errors.len();
    let mut i: usize = 0;
    assert(details_view(out@) =~= details_view(old(out)@) + field_details(field@, errors@).take(0));
    while i < n
        invariant
            i <= n,
            n == errors@.len(),
            pointer@ == body_pointer(field@),
            details_view(out@) == details_view(old(out)@) + field_details(field@, errors@).take(
                i as int,
            ),
        decreases n - i,
    {
        let ghost before = out@;
        out.push(map_error_detail(pointer.as_str(), &errors[i]));
        assert(details_view(out@) =~= details_view(before).push(
            detail_of(body_pointer(field@), errors@[i as int]@),
        ));
        assert(field_details(field@, errors@).take(i + 1) =~= field_details(field@, errors@).take(
            i as int,
        ).push(detail_of(body_pointer(field@), errors@[i as int]@)));
        i = i + 1;
    }
    assert(field_details(field@, errors@).take(n as int) =~= field_details(field@, errors@));
}

/// The details for the rules that `field` failed: one per rule, in order, each
/// with the pointer `/body/{field}`.
pub fn map_field_errors(field: &str, errors: &Vec<ValidationError>) -> (r: Vec<ErrorDetail>)
    ensures
        details_view(r@) == field_details(field@, errors@),
{
    let mut out: Vec<ErrorDetail> = Vec::new();
    push_field_errors(&mut out, field, errors);
    assert(details_view(out@) =~= field_details(field@, errors@));
    out
}

/// Appends the details for a nested structure to `out`.
fn push_struct_errors(out: &mut Vec<ErrorDetail>, errors: &ValidationErrors)
    ensures
        details_view(final(out)@) == details_view(old(out)@) + struct_details(*errors),
{
    let n = errors.entries.len();
    let mut i: usize = 0;
    assert(details_view(out@) =~= details_view(old(out)@) + struct_details_upto(
        errors.entries@,
        0,
    ));
    while i < n
        invariant
            i <= n,
            n == errors.entries@.len(),
            details_view(out@) == details_view(old(out)@) + struct_details_upto(
                errors.entries@,
                i as int,
            ),
        decreases n - i,
    {
        let entry = &errors.entries[i];
        let ghost before = details_view(out@);
        match &entry.kind {
            ValidationErrorsKind::Field(list) => {
                push_field_errors(out, entry.field.as_str(), list);
                assert(details_view(out@) =~= details_view(old(out)@) + struct_details_upto(
                    errors.entries@,
                    i + 1,
                ));
            },
            _ => {
                assert(before =~= details_view(old(out)@) + struct_details_upto(
                    errors.entries@,
                    i + 1,
                ));
            },
        }
        i = i + 1;
    }
}

/// The details for a nested structure: those of the rules that its fields
/// themselves failed, each with the pointer `/body/{field}`.
pub fn map_struct_errors(errors: &ValidationErrors) -> (r: Vec<ErrorDetail>)
    ensures
        details_view(r@) == struct_details(*errors),
{
    let mut out: Vec<ErrorDetail> = Vec::new();
    push_struct_errors(&mut out, errors);
    assert(details_view(out@) =~= struct_details(*errors));
    out
}

/// The name under which `key` of item `index` of the list `field` is reported:
/// `{field}/{index}/{key}`.
pub fn item_field_name(field: &str, index: usize, key: &str) -> (r: String)
    ensures
        r@ == item_field(field@, index as nat, key@),
{
    let mut name = String::from_str(field);
    name.append("/");
    push_decimal(&mut name, index);
    name.append("/");
    name.append(key);
    name
}

/// Appends the details for one failed item of the list `field` to `out`.
fn push_item_errors(
    out: &mut Vec<ErrorDetail>,
    field: &str,
    index: usize,
    errors: &ValidationErrors,
)
    ensures
        details_view(final(out)@) == details_view(old(out)@) + item_details_upto(
            field@,
            index as nat,
            errors.entries@,
            errors.entries@.len() as int,
        ),
{
    let n = errors.entries.len();
    let mut i: usize = 0;
    assert(details_view(out@) =~= details_view(old(out)@) + item_details_upto(
        field@,
        index as nat,
        errors.entries@,
        0,
    ));
    while i < n
        invariant
            i <= n,
            n == errors.entries@.len(),
            details_view(out@) == details_view(old(out)@) + item_details_upto(
                field@,
                index as nat,
                errors.entries@,
                i as int,
            ),
        decreases n - i,
    {
        let entry = &errors.entries[i];
        let ghost before = details_view(out@);
        match &entry.kind {
            ValidationErrorsKind::Field(list) => {
                let name = item_field_name(field, index, entry.field.as_str());
                push_field_errors(out, name.as_str(), list);
                assert(details_view(out@) =~= details_view(old(out)@) + item_details_upto(
                    field@,
                    index as nat,
                    errors.entries@,
                    i + 1,
                ));
            },
            _ => {
                assert(before =~= details_view(old(out)@) + item_details_upto(
                    field@,
                    index as nat,
                    errors.entries@,
                    i + 1,
                ));
            },
        }
        i = i + 1;
    }
}

/// Appends the details for the failed items of the list `field` to `out`.
fn push_list_errors(out: &mut Vec<ErrorDetail>, field: &str, items: &Vec<ListEntry>)
    ensures
        details_view(final(out)@) == details_view(old(out)@) + list_details(field@, items@),
{
    let n = items.len();
    let mut i: usize = 0;
    assert(details_view(out@) =~= details_view(old(out)@) + list_details_upto(field@, items@, 0));
    while i < n
        invariant
            i <= n,
            n == items@.len(),
            details_view(out@) == details_view(old(out)@) + list_details_upto(
                field@,
                items@,
                i as int,
            ),
        decreases n - i,
    {
        let item = &items[i];
        push_item_errors(out, field, item.index, &item.errors);
        assert(details_view(out@) =~= details_view(old(out)@) + list_details_upto(
            field@,
            items@,
            i + 1,
        ));
        i = i + 1;
    }
}

/// The details for the failed items of the list `field`: for each item, those of
/// the rules that its fields themselves failed, each with the pointer
/// `/body/{field}/{index}/{key}`.
pub fn map_list_errors(field: &str, items: &Vec<ListEntry>) -> (r: Vec<ErrorDetail>)
    ensures
        details_view(r@) == list_details(field@, items@),
{
    let mut out: Vec<ErrorDetail> = Vec::new();
    push_list_errors(&mut out, field, items);
    assert(details_view(out@) =~= list_details(field@, items@));
    out
}

/// The details for all that was found wrong with a request body, field by field
/// in the order of `errors`.
pub fn map_validation_error(errors: &ValidationErrors) -> (r: Vec<ErrorDetail>)
    ensures
        details_view(r@) == validation_details(*errors),
{
    let mut out: Vec<ErrorDetail> = Vec::new();
    let n = errors.entries.len();
    let mut i: usize = 0;
    assert(details_view(out@) =~= validation_details_upto(errors.entries@, 0));
    while i < n
        invariant
            i <= n,
            n == errors.entries@.len(),
            details_view(out@) == validation_details_upto(errors.entries@, i as int),
        decreases n - i,
    {
        let entry = &errors.entries[i];
        match &entry.kind {
            ValidationErrorsKind::Struct(nested) => push_struct_errors(&mut out, nested),
            ValidationErrorsKind::List(items) => push_list_errors(
                &mut out,
                entry.field.as_str(),
                items,
            ),
            ValidationErrorsKind::Field(list) => push_field_errors(
                &mut out,
                entry.field.as_str(),
                list,
            ),
        }
        i = i + 1;
    }
    out
}

/// What a request is rejected with for the failures `errors`: status 400 and one
/// detail per failed rule. Where none of the failures can be reported, the body
/// as a whole is reported as invalid, so that the answer explains itself.
pub open spec fn rejection(errors: ValidationErrors) -> ErrorResultView {
    if validation_details(errors).len() == 0 {
        invalid_body_view()
    } else {
        ErrorResultView { status: 400, errors: validation_details(errors) }
    }
}

/// Passes `value` on where its validation found nothing, and rejects it with
/// status 400 and the details of what was found otherwise. A rejection holds at
/// least one detail: where nothing of what was found can be reported, it is the
/// one that calls the body invalid.
///
/// `outcome` is what the rules said of `value`.
pub fn validate<T>(value: T, outcome: Result<(), ValidationErrors>) -> (r: Result<T, ErrorResult>)
    ensures
        match outcome {
            Ok(_) => r == Ok::<T, ErrorResult>(value),
            Err(errors) => r is Err && r->Err_0.wf() && r->Err_0@ == rejection(errors),
        },
{
    match outcome {
        Ok(_) => Ok(value),
        Err(errors) => {
            let details = map_validation_error(&errors);
            if details.len() == 0 {
                Err(invalid_body())
            } else {
                Err(ErrorResult { status: 400, errors: details })
            }
        },
    }
}

} // verus!
