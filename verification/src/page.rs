//! Offset pagination: a one-based page number and a page size select a window
//! of an ordered result set, and the answer reports the size of the whole set.

use vstd::prelude::*;

verus! {

/// The page number used when a request names none.
pub const PAGE_DEFAULT: i64 = 1;

/// The smallest page number; smaller requests are raised to it.
pub const PAGE_MIN: i64 = 1;

/// The page size used when a request names none.
pub const SIZE_DEFAULT: i16 = 20;

/// The smallest page size; smaller requests are raised to it.
pub const SIZE_MIN: i16 = 1;

/// Number of rows to skip for a one-based `page` of `size` rows each:
/// `(page - 1) * size`, and 0 where that is negative.
pub open spec fn page_offset(page: int, size: int) -> int {
    if (page - 1) * size > 0 {
        (page - 1) * size
    } else {
        0
    }
}

/// The first page starts at the first row, and every further page starts right
/// behind the page before it.
pub proof fn lemma_page_offset_steps(page: int, size: int)
    requires
        page >= 1,
        size >= 0,
    ensures
        page_offset(1, size) == 0,
        page_offset(page, size) == (page - 1) * size,
        page_offset(page + 1, size) == page_offset(page, size) + size,
{
    assert((page - 1) * size >= 0) by (nonlinear_arith)
        requires
            page >= 1,
            size >= 0,
    ;
    assert(page * size == (page - 1) * size + size) by (nonlinear_arith);
}

/// The page that a request asks for: the default where it names none, and the
/// smallest page where it names a smaller one.
pub open spec fn requested_page(page: Option<i64>) -> i64 {
    match page {
        Some(p) if p >= PAGE_MIN => p,
        Some(_) => PAGE_MIN,
        None => PAGE_DEFAULT,
    }
}

/// The page size that a request asks for: the default where it names none, and
/// the smallest size where it names a smaller one.
pub open spec fn requested_size(size: Option<i16>) -> i16 {
    match size {
        Some(s) if s >= SIZE_MIN => s,
        Some(_) => SIZE_MIN,
        None => SIZE_DEFAULT,
    }
}

/// The window of `rows` that a page request selects: up to `size` rows behind
/// the first `offset` ones. Nothing is left where the offset is not below the
/// number of rows.
pub open spec fn page_window<A>(rows: Seq<A>, offset: int, size: int) -> Seq<A> {
    if offset < 0 || size <= 0 || offset >= rows.len() {
        Seq::empty()
    } else if size < rows.len() - offset {
        rows.subrange(offset, offset + size)
    } else {
        rows.skip(offset)
    }
}

/// Which window of a result set a caller asks for.
#[derive(Debug, Clone, Copy, PartialEq, Eq)]
pub struct PageRequest {
    /// The one-based number of the page.
    pub page: i64,
    /// The number of rows of a page.
    pub size: i16,
    /// The number of rows before the page.
    pub offset: i64,
}

fn offset_of(page: i64, size: i16) -> (r: i64)
    requires
        page_offset(page as int, size as int) <= i64::MAX,
    ensures
        r == page_offset(page as int, size as int),
{
    let before: i128 = page as i128 - 1;
    assert(-0x1_0000_0000_0000_0000_0000 <= before * (size as i128) <= 0x1_0000_0000_0000_0000_0000)
        by (nonlinear_arith)
        requires
            -0x8000_0000_0000_0001 <= before <= 0x8000_0000_0000_0000,
            -0x8000 <= size <= 0x8000,
    ;
    let rows: i128 = before * (size as i128);
    if rows > 0 {
        rows as i64
    } else {
        0
    }
}

impl PageRequest {
    /// A request is well formed when page and size are at least their minimum
    /// and the offset is the one that belongs to them.
    pub open spec fn wf(&self) -> bool {
        &&& self.page >= PAGE_MIN
        &&& self.size >= SIZE_MIN
        &&& self.offset == page_offset(self.page as int, self.size as int)
    }

    /// The request that the values of the query parameters make: page and size
    /// as asked for, and the offset that belongs to them.
    pub open spec fn requested(page: Option<i64>, size: Option<i16>) -> PageRequest {
        PageRequest {
            page: requested_page(page),
            size: requested_size(size),
            offset: page_offset(requested_page(page) as int, requested_size(size) as int) as i64,
        }
    }

    /// Whether the offset of the requested page can be represented.
    pub fn readable(page: Option<i64>, size: Option<i16>) -> (r: bool)
        ensures
            r == (page_offset(requested_page(page) as int, requested_size(size) as int)
                <= i64::MAX),
    {
        let page = match page {
            Some(p) if p >= PAGE_MIN => p,
            Some(_) => PAGE_MIN,
            None => PAGE_DEFAULT,
        };
        let size = match size {
            Some(s) if s >= SIZE_MIN => s,
            Some(_) => SIZE_MIN,
            None => SIZE_DEFAULT,
        };
        assert(0 <= (page - 1) * size <= 0x4000_0000_0000_0000_0000) by (nonlinear_arith)
            requires
                1 <= page <= 0x8000_0000_0000_0000,
                1 <= size <= 0x8000,
        ;
        let rows: i128 = (page as i128 - 1) * (size as i128);
        rows <= i64::MAX as i128
    }

    /// Reads a page request from the values of the query parameters `page` and
    /// `size`, where they are present and are numbers.
    ///
    /// A missing page is page 1 and a missing size is 20; values below 1 are
    /// raised to 1. The offset is `(page - 1) * size`.
    pub fn read(page: Option<i64>, size: Option<i16>) -> (r: PageRequest)
        requires
            page_offset(requested_page(page) as int, requested_size(size) as int) <= i64::MAX,
        ensures
            r.wf(),
            r == PageRequest::requested(page, size),
    {
        let page = match page {
            Some(p) if p >= PAGE_MIN => p,
            Some(_) => PAGE_MIN,
            None => PAGE_DEFAULT,
        };
        let size = match size {
            Some(s) if s >= SIZE_MIN => s,
            Some(_) => SIZE_MIN,
            None => SIZE_DEFAULT,
        };
        PageRequest { page, size, offset: offset_of(page, size) }
    }

    /// The largest number of rows that the page may hold.
    pub fn limit(&self) -> (r: i16)
        ensures
            r == self.size,
    {
        self.size
    }

    /// The number of rows before the page, computed from page and size.
    pub fn offset(&self) -> (r: i64)
        requires
            page_offset(self.page as int, self.size as int) <= i64::MAX,
        ensures
            r == page_offset(self.page as int, self.size as int),
    {
        offset_of(self.page, self.size)
    }
}

/// One page of a result set, with the number of rows of the whole set.
#[derive(Debug, Clone, PartialEq, Eq)]
pub struct Page<T> {
    pub data: Vec<T>,
    pub page: i64,
    pub size: i16,
    pub total: i64,
}

impl<T> Page<T> {
    /// Puts the rows of a page together with the request that asked for them and
    /// the count of all rows that match.
    pub fn new(data: Vec<T>, count: i64, page_request: &PageRequest) -> (r: Self)
        ensures
            r.data == data,
            r.page == page_request.page,
            r.size == page_request.size,
            r.total == count,
    {
        Self { data, page: page_request.page, size: page_request.size, total: count }
    }
}

} // verus!
