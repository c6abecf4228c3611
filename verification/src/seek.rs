//! Keyset pagination: rows are ordered by creation instant and identifier, both
//! descending, and a page is found by the key of the last row of the page before.

use vstd::prelude::*;
use time::format_description::well_known::Rfc3339;
use time::OffsetDateTime;
use crate::page::requested_size;
use crate::page::SIZE_DEFAULT;
use crate::page::SIZE_MIN;

verus! {

/// The instant that `text` denotes as an RFC 3339 timestamp, in nanoseconds
/// since the Unix epoch; `None` where `text` is no such timestamp.
pub uninterp spec fn rfc3339_instant(text: Seq<char>) -> Option<int>;

/// Calls `time::OffsetDateTime::parse` with the `Rfc3339` format, then
/// `unix_timestamp_nanos` on what was parsed. The contract only names the
/// instant that comes back.
#[verifier::external_body]
fn parse_instant(value: &str) -> (r: Option<i128>)
    ensures
        match r {
            Some(instant) => rfc3339_instant(value@) == Some(instant as int),
            None => rfc3339_instant(value@) is None,
        },
{
    match OffsetDateTime::parse(value, &Rfc3339) {
        Ok(parsed) => Some(parsed.unix_timestamp_nanos()),
        Err(_) => None,
    }
}

/// Which rows a caller asks for: at most `size` of them, behind the row with
/// the key `(created_at, id)` where both are present, from the start otherwise.
#[derive(Debug, Clone, Copy, PartialEq, Eq)]
pub struct SeekRequest {
    /// The number of rows of a page.
    pub size: i16,
    /// The number of rows to fetch: one more than a page holds, to see whether
    /// another page follows. It is held wide enough for every size.
    pub limit: i32,
    /// The creation instant of the last row of the page before, in nanoseconds
    /// since the Unix epoch.
    pub created_at: Option<i128>,
    /// The identifier of the last row of the page before.
    pub id: Option<i64>,
}

/// A row that has a place in the order of keyset pagination.
pub trait Seekable {
    /// The creation instant of the row, in nanoseconds since the Unix epoch.
    spec fn spec_created_at(&self) -> i128;

    /// The identifier of the row.
    spec fn spec_id(&self) -> i64;

    fn created_at(&self) -> (r: i128)
        ensures
            r == self.spec_created_at(),
    ;

    fn id(&self) -> (r: i64)
        ensures
            r == self.spec_id(),
    ;
}

/// The cursor that a creation instant and an identifier make: open where both
/// are present, closed otherwise.
pub open spec fn cursor_of(created_at: Option<i128>, id: Option<i64>) -> Option<(int, int)> {
    match (created_at, id) {
        (Some(c), Some(i)) => Some((c as int, i as int)),
        _ => None,
    }
}

/// The instant that an optional timestamp text denotes.
pub open spec fn requested_instant(created_at: Option<Seq<char>>) -> Option<int> {
    match created_at {
        Some(text) => rfc3339_instant(text),
        None => None,
    }
}

impl SeekRequest {
    /// A request is well formed when its size is at least the minimum and its
    /// limit is one more than its size.
    pub open spec fn wf(&self) -> bool {
        &&& self.size >= SIZE_MIN
        &&& self.limit == self.size + 1
    }

    /// The cursor of the request: the key behind which the rows are asked for.
    pub open spec fn cursor(&self) -> Option<(int, int)> {
        cursor_of(self.created_at, self.id)
    }

    /// The request that the values of the query parameters make: the size as
    /// asked for, the limit one above it, and the cursor from the instant that
    /// the timestamp text denotes and the identifier.
    pub open spec fn requested(
        size: Option<i16>,
        created_at: Option<Seq<char>>,
        id: Option<i64>,
    ) -> SeekRequest {
        SeekRequest {
            size: requested_size(size),
            limit: (requested_size(size) + 1) as i32,
            created_at: match requested_instant(created_at) {
                Some(instant) => Some(instant as i128),
                None => None,
            },
            id,
        }
    }

    /// Makes a seek request from a page size, and from the creation instant and
    /// the identifier of the last row seen, where the caller names them.
    ///
    /// A missing size is 20; a size below 1 is raised to 1. The limit is one
    /// more than the size.
    pub fn new(size: Option<i16>, created_at: Option<i128>, id: Option<i64>) -> (r: SeekRequest)
        ensures
            r.wf(),
            r.size == requested_size(size),
            r.created_at == created_at,
            r.id == id,
    {
        let size = match size {
            Some(s) if s >= SIZE_MIN => s,
            Some(_) => SIZE_MIN,
            None => SIZE_DEFAULT,
        };
        SeekRequest { size, limit: size as i32 + 1, created_at, id }
    }

    /// Reads a seek request from the values of the query parameters `size`,
    /// `createdAt` and `id`, where they are present; `size` and `id` as numbers,
    /// `createdAt` as text.
    ///
    /// The text is read as an RFC 3339 timestamp. Text that is none is treated
    /// as if the parameter were absent.
    pub fn read(size: Option<i16>, created_at: Option<&str>, id: Option<i64>) -> (r: SeekRequest)
        ensures
            r.wf(),
            r == SeekRequest::requested(
                size,
                match created_at {
                    Some(text) => Some(text@),
                    None => None,
                },
                id,
            ),
    {
        let instant = match created_at {
            Some(text) => parse_instant(text),
            None => None,
        };
        SeekRequest::new(size, instant, id)
    }

    /// The number of rows to fetch, computed from the size: one more than a page holds.
    pub fn limit(&self) -> (r: i32)
        ensures
            r == self.size + 1,
    {
        self.size as i32 + 1
    }
}

/// Whether `fetched` rows are more than a page of `size` rows holds.
pub open spec fn has_more(fetched: int, size: int) -> bool {
    0 <= size < fetched
}

/// The rows of the page: the first `size` of the fetched rows where more were
/// fetched, all of them otherwise.
pub open spec fn page_rows<T>(fetched: Seq<T>, size: int) -> Seq<T> {
    if has_more(fetched.len() as int, size) {
        fetched.take(size)
    } else {
        fetched
    }
}

/// The creation instant and the identifier of the last row of the page, where
/// more rows were fetched than the page holds and the page holds a row at all.
pub open spec fn next_cursor<T: Seekable>(fetched: Seq<T>, size: int) -> (Option<i128>, Option<i64>) {
    if has_more(fetched.len() as int, size) && size > 0 {
        (Some(fetched[size - 1].spec_created_at()), Some(fetched[size - 1].spec_id()))
    } else {
        (None, None)
    }
}

/// One page of a keyset-paginated result set, with the cursor for the next
/// page where there is one.
#[derive(Debug, Clone, PartialEq, Eq)]
pub struct Seek<T> {
    pub data: Vec<T>,
    pub size: i16,
    pub created_at: Option<i128>,
    pub id: Option<i64>,
}

impl<T: Seekable> Seek<T> {
    /// The cursor for the next page, where there is one.
    pub open spec fn cursor(&self) -> Option<(int, int)> {
        cursor_of(self.created_at, self.id)
    }

    /// Makes a page of the rows that were fetched for `seek_request`.
    ///
    /// Where more rows were fetched than a page holds, the page is the first
    /// `size` of them and the cursor is the key of its last row. Otherwise the
    /// page holds all that was fetched and there is no cursor.
    pub fn new(data: Vec<T>, seek_request: &SeekRequest) -> (r: Seek<T>)
        ensures
            r.data@ == page_rows(data@, seek_request.size as int),
            r.size == seek_request.size,
            (r.created_at, r.id) == next_cursor(data@, seek_request.size as int),
            r.cursor() == crate::keyset::cursor_after(
                data@,
                crate::keyset::row_key::<T>(),
                seek_request.size as int,
            ),
            seek_request.size >= 0 ==> r.data@.len() <= seek_request.size,
    {
        let mut data = data;
        let size = seek_request.size;
        if size >= 0 && data.len() > size as usize {
            data.truncate(size as usize);
            if size > 0 {
                let last = &data[size as usize - 1];
                let created_at = last.created_at();
                let id = last.id();
                Seek { data, size, created_at: Some(created_at), id: Some(id) }
            } else {
                Seek { data, size, created_at: None, id: None }
            }
        } else {
            Seek { data, size, created_at: None, id: None }
        }
    }
}

} // verus!
