//! The order of keyset pagination, and why following the cursors visits every
//! row of an unchanging result set exactly once.
//!
//! Rows are told apart by a key, a pair of creation instant and identifier, and
//! are listed in descending order of it. A cursor is the key of the last row of
//! a page; the next page holds the rows behind it.

use vstd::prelude::*;
use crate::seek::has_more;
use crate::seek::page_rows;
use crate::seek::Seekable;

verus! {

/// The key of a row: its creation instant, then its identifier.
pub open spec fn key_of<T: Seekable>(row: T) -> (int, int) {
    (row.spec_created_at() as int, row.spec_id() as int)
}

/// The function that gives each row its key.
pub open spec fn row_key<T: Seekable>() -> spec_fn(T) -> (int, int) {
    |row: T| key_of(row)
}

/// Whether key `a` is smaller than key `b`: by instant, then by identifier.
pub open spec fn key_lt(a: (int, int), b: (int, int)) -> bool {
    a.0 < b.0 || (a.0 == b.0 && a.1 < b.1)
}

/// Whether a row with `key` comes behind `cursor` in descending order: its key
/// is smaller than an open cursor; every row is behind a closed one.
pub open spec fn behind(key: (int, int), cursor: Option<(int, int)>) -> bool {
    match cursor {
        Some(c) => key_lt(key, c),
        None => true,
    }
}

/// The condition that a row comes behind `cursor`.
pub open spec fn behind_cursor<A>(key: spec_fn(A) -> (int, int), cursor: Option<(int, int)>)
    -> spec_fn(A) -> bool {
    |row: A| behind(key(row), cursor)
}

/// Whether `rows` are in descending order of their keys, with no key twice.
pub open spec fn ordered<A>(rows: Seq<A>, key: spec_fn(A) -> (int, int)) -> bool {
    forall|i: int, j: int|
        0 <= i < j < rows.len() ==> key_lt(key(#[trigger] rows[j]), key(#[trigger] rows[i]))
}

/// The rows of `rows` that come behind `cursor`, in order.
pub open spec fn rows_behind<A>(
    rows: Seq<A>,
    key: spec_fn(A) -> (int, int),
    cursor: Option<(int, int)>,
) -> Seq<A> {
    rows.filter(behind_cursor(key, cursor))
}

/// The first `limit` rows of `rows`, or all of them where there are fewer.
pub open spec fn first_rows<A>(rows: Seq<A>, limit: int) -> Seq<A> {
    if limit <= 0 {
        Seq::empty()
    } else if limit < rows.len() {
        rows.take(limit)
    } else {
        rows
    }
}

/// What a seek statement fetches from `rows`: the first `limit` of the rows
/// behind `cursor`.
pub open spec fn fetched<A>(
    rows: Seq<A>,
    key: spec_fn(A) -> (int, int),
    cursor: Option<(int, int)>,
    limit: int,
) -> Seq<A> {
    first_rows(rows_behind(rows, key, cursor), limit)
}

/// The cursor behind a page of `size` rows made of what was fetched: the key of
/// the last row of the page, where more rows were fetched than the page holds
/// and the page holds a row at all.
pub open spec fn cursor_after<A>(fetched: Seq<A>, key: spec_fn(A) -> (int, int), size: int)
    -> Option<(int, int)> {
    if has_more(fetched.len() as int, size) && size > 0 {
        Some(key(fetched[size - 1]))
    } else {
        None
    }
}

/// The page that a seek with `cursor` and `size` returns from `rows`.
pub open spec fn seek_page<A>(
    rows: Seq<A>,
    key: spec_fn(A) -> (int, int),
    cursor: Option<(int, int)>,
    size: int,
) -> Seq<A> {
    page_rows(fetched(rows, key, cursor, size + 1), size)
}

/// The cursor that a seek with `cursor` and `size` returns from `rows`.
pub open spec fn seek_cursor<A>(
    rows: Seq<A>,
    key: spec_fn(A) -> (int, int),
    cursor: Option<(int, int)>,
    size: int,
) -> Option<(int, int)> {
    cursor_after(fetched(rows, key, cursor, size + 1), key, size)
}

/// The pages that up to `steps` successive seeks return from `rows`, one behind
/// the other: each seek but the first takes the cursor that the seek before it
/// returned, and the walk ends where a seek returns none.
pub open spec fn seek_walk<A>(
    rows: Seq<A>,
    key: spec_fn(A) -> (int, int),
    cursor: Option<(int, int)>,
    size: int,
    steps: nat,
) -> Seq<A>
    decreases steps,
{
    if steps == 0 {
        Seq::empty()
    } else {
        match seek_cursor(rows, key, cursor, size) {
            Some(next) => seek_page(rows, key, cursor, size) + seek_walk(
                rows,
                key,
                Some(next),
                size,
                (steps - 1) as nat,
            ),
            None => seek_page(rows, key, cursor, size),
        }
    }
}

/// The order of keys is transitive.
pub proof fn lemma_key_lt_transitive(a: (int, int), b: (int, int), c: (int, int))
    requires
        key_lt(a, b),
        key_lt(b, c),
    ensures
        key_lt(a, c),
{
}

/// Ordered rows stay ordered when the last one is left out.
pub proof fn lemma_ordered_drop_last<A>(rows: Seq<A>, key: spec_fn(A) -> (int, int))
    requires
        ordered(rows, key),
        rows.len() > 0,
    ensures
        ordered(rows.drop_last(), key),
{
    let front = rows.drop_last();
    assert forall|i: int, j: int| 0 <= i < j < front.len() implies key_lt(
        key(#[trigger] front[j]),
        key(#[trigger] front[i]),
    ) by {
        assert(front[i] == rows[i] && front[j] == rows[j]);
    }
}

/// Filtering ordered rows leaves them ordered, and every row that is kept
/// stands in the rows.
pub proof fn lemma_filter_ordered<A>(
    rows: Seq<A>,
    key: spec_fn(A) -> (int, int),
    pred: spec_fn(A) -> bool,
)
    requires
        ordered(rows, key),
    ensures
        ordered(rows.filter(pred), key),
    decreases rows.len(),
{
    reveal(Seq::filter);
    if rows.len() > 0 {
        let front = rows.drop_last();
        lemma_ordered_drop_last(rows, key);
        lemma_filter_ordered(front, key, pred);
        let kept = front.filter(pred);
        let out = rows.filter(pred);
        assert forall|i: int| 0 <= i < kept.len() implies key_lt(
            key(rows.last()),
            key(#[trigger] kept[i]),
        ) by {
            front.lemma_filter_contains_rev(pred, kept[i]);
            let k = choose|k: int| 0 <= k < front.len() && front[k] == kept[i];
            assert(front[k] == rows[k]);
            assert(key_lt(key(rows[rows.len() - 1]), key(rows[k])));
        }
        assert forall|i: int, j: int| 0 <= i < j < out.len() implies key_lt(
            key(#[trigger] out[j]),
            key(#[trigger] out[i]),
        ) by {
            if j < kept.len() {
                assert(out[i] == kept[i] && out[j] == kept[j]);
            } else {
                assert(out[j] == rows.last());
                assert(out[i] == kept[i]);
            }
        }
    }
}

/// Filtering rows of which none passes leaves nothing.
pub proof fn lemma_filter_none<A>(rows: Seq<A>, pred: spec_fn(A) -> bool)
    requires
        forall|i: int| 0 <= i < rows.len() ==> !pred(#[trigger] rows[i]),
    ensures
        rows.filter(pred) == Seq::<A>::empty(),
    decreases rows.len(),
{
    reveal(Seq::filter);
    if rows.len() > 0 {
        let front = rows.drop_last();
        assert forall|i: int| 0 <= i < front.len() implies !pred(#[trigger] front[i]) by {
            assert(front[i] == rows[i]);
        }
        lemma_filter_none(front, pred);
        assert(!pred(rows[rows.len() - 1]));
    } else {
        assert(rows.filter(pred) =~= Seq::<A>::empty());
    }
}

/// Filtering rows of which all pass leaves them as they are.
pub proof fn lemma_filter_all<A>(rows: Seq<A>, pred: spec_fn(A) -> bool)
    requires
        forall|i: int| 0 <= i < rows.len() ==> pred(#[trigger] rows[i]),
    ensures
        rows.filter(pred) == rows,
    decreases rows.len(),
{
    reveal(Seq::filter);
    if rows.len() > 0 {
        let front = rows.drop_last();
        assert forall|i: int| 0 <= i < front.len() implies pred(#[trigger] front[i]) by {
            assert(front[i] == rows[i]);
        }
        lemma_filter_all(front, pred);
        assert(pred(rows[rows.len() - 1]));
        assert(front.push(rows.last()) =~= rows);
    }
}

/// Filtering by a condition, then by a stronger one, is filtering by the stronger one.
pub proof fn lemma_filter_stronger<A>(
    rows: Seq<A>,
    weak: spec_fn(A) -> bool,
    strong: spec_fn(A) -> bool,
)
    requires
        forall|row: A| #[trigger] strong(row) ==> weak(row),
    ensures
        rows.filter(weak).filter(strong) == rows.filter(strong),
    decreases rows.len(),
{
    reveal(Seq::filter);
    if rows.len() > 0 {
        let front = rows.drop_last();
        let last = rows.last();
        lemma_filter_stronger(front, weak, strong);
        if weak(last) {
            assert(rows.filter(weak) == front.filter(weak).push(last));
            assert(front.filter(weak).push(last).drop_last() =~= front.filter(weak));
        } else {
            assert(!strong(last));
        }
    } else {
        assert(rows.filter(weak) =~= rows);
    }
}

/// In ordered rows, the rows behind the key of row `m` are the rows behind
/// position `m`.
pub proof fn lemma_behind_own_key<A>(rows: Seq<A>, key: spec_fn(A) -> (int, int), m: int)
    requires
        ordered(rows, key),
        0 <= m < rows.len(),
    ensures
        rows_behind(rows, key, Some(key(rows[m]))) == rows.skip(m + 1),
    decreases rows.len(),
{
    reveal(Seq::filter);
    let pred = behind_cursor(key, Some(key(rows[m])));
    let front = rows.drop_last();
    let last = rows.last();
    if m == rows.len() - 1 {
        assert forall|i: int| 0 <= i < rows.len() implies !pred(#[trigger] rows[i]) by {
            if i < m {
                assert(key_lt(key(rows[m]), key(rows[i])));
            }
        }
        lemma_filter_none(rows, pred);
        assert(rows.skip(m + 1) =~= Seq::<A>::empty());
    } else {
        lemma_ordered_drop_last(rows, key);
        assert(front[m] == rows[m]);
        lemma_behind_own_key(front, key, m);
        assert(key_lt(key(rows[rows.len() - 1]), key(rows[m])));
        assert(pred(last));
        assert(rows.skip(m + 1) =~= front.skip(m + 1).push(last));
    }
}

/// In ordered rows, the rows behind the key of the row at position `m` of the
/// rows behind `cursor` are the rows behind `cursor` from position `m + 1` on.
pub proof fn lemma_behind_next<A>(
    rows: Seq<A>,
    key: spec_fn(A) -> (int, int),
    cursor: Option<(int, int)>,
    m: int,
)
    requires
        ordered(rows, key),
        0 <= m < rows_behind(rows, key, cursor).len(),
    ensures
        rows_behind(rows, key, Some(key(rows_behind(rows, key, cursor)[m]))) == rows_behind(
            rows,
            key,
            cursor,
        ).skip(m + 1),
{
    let current = rows_behind(rows, key, cursor);
    let next = Some(key(current[m]));
    lemma_filter_ordered(rows, key, behind_cursor(key, cursor));
    rows.lemma_filter_pred(behind_cursor(key, cursor), m);
    assert(behind(key(current[m]), cursor));
    assert forall|row: A| #[trigger] behind_cursor(key, next)(row) implies behind_cursor(
        key,
        cursor,
    )(row) by {
        if cursor is Some {
            lemma_key_lt_transitive(key(row), key(current[m]), cursor->Some_0);
        }
    }
    lemma_filter_stronger(rows, behind_cursor(key, cursor), behind_cursor(key, next));
    lemma_behind_own_key(current, key, m);
}

/// One seek over ordered rows returns the start of the rows behind its cursor,
/// and its own cursor stands for the rest: where it returns a cursor, the page
/// holds `size` rows and the rows behind the new cursor are the rows behind the
/// old one without the page; where it returns none, the page holds all the rows
/// behind the old cursor.
pub proof fn lemma_seek_step<A>(
    rows: Seq<A>,
    key: spec_fn(A) -> (int, int),
    cursor: Option<(int, int)>,
    size: int,
)
    requires
        ordered(rows, key),
        size >= 1,
    ensures
        seek_page(rows, key, cursor, size).len() <= size,
        match seek_cursor(rows, key, cursor, size) {
            Some(next) => {
                &&& rows_behind(rows, key, cursor).len() > size
                &&& seek_page(rows, key, cursor, size).len() == size
                &&& next == key(seek_page(rows, key, cursor, size).last())
                &&& seek_page(rows, key, cursor, size) + rows_behind(rows, key, Some(next))
                    == rows_behind(rows, key, cursor)
            },
            None => {
                &&& rows_behind(rows, key, cursor).len() <= size
                &&& seek_page(rows, key, cursor, size) == rows_behind(rows, key, cursor)
            },
        },
{
    let current = rows_behind(rows, key, cursor);
    let got = fetched(rows, key, cursor, size + 1);
    if current.len() <= size {
        assert(got == current);
    } else {
        assert(got == current.take(size + 1));
        assert(seek_page(rows, key, cursor, size) =~= current.take(size));
        assert(got[size - 1] == current[size - 1]);
        lemma_behind_next(rows, key, cursor, size - 1);
        assert(current.take(size) + current.skip(size) =~= current);
    }
}

/// What one seek returns, whatever the order of the rows: the page holds at
/// most `size` rows. Where more than `size` rows are behind the cursor, the page
/// is full and the new cursor is the key of its last row. Otherwise the page
/// holds all the rows behind the cursor and there is no new cursor.
pub proof fn lemma_seek_page_cursor<A>(
    rows: Seq<A>,
    key: spec_fn(A) -> (int, int),
    cursor: Option<(int, int)>,
    size: int,
)
    requires
        size >= 1,
    ensures
        seek_page(rows, key, cursor, size).len() <= size,
        rows_behind(rows, key, cursor).len() > size ==> {
            &&& seek_page(rows, key, cursor, size).len() == size
            &&& seek_cursor(rows, key, cursor, size) == Some(
                key(seek_page(rows, key, cursor, size).last()),
            )
        },
        rows_behind(rows, key, cursor).len() <= size ==> {
            &&& seek_page(rows, key, cursor, size) == rows_behind(rows, key, cursor)
            &&& seek_cursor(rows, key, cursor, size) is None
        },
{
    let current = rows_behind(rows, key, cursor);
    let got = fetched(rows, key, cursor, size + 1);
    if current.len() > size {
        assert(got == current.take(size + 1));
        assert(seek_page(rows, key, cursor, size) =~= current.take(size));
        assert(got[size - 1] == current[size - 1]);
    } else {
        assert(got == current);
    }
}

/// Walking the pages of ordered rows from `cursor` on yields exactly the rows
/// behind `cursor`, in order, once the walk may take more steps than there are
/// such rows.
pub proof fn lemma_seek_walk<A>(
    rows: Seq<A>,
    key: spec_fn(A) -> (int, int),
    cursor: Option<(int, int)>,
    size: int,
    steps: nat,
)
    requires
        ordered(rows, key),
        size >= 1,
        steps > rows_behind(rows, key, cursor).len(),
    ensures
        seek_walk(rows, key, cursor, size, steps) == rows_behind(rows, key, cursor),
    decreases steps,
{
    lemma_seek_step(rows, key, cursor, size);
    match seek_cursor(rows, key, cursor, size) {
        Some(next) => {
            let page = seek_page(rows, key, cursor, size);
            assert((page + rows_behind(rows, key, Some(next))).len() == page.len() + rows_behind(
                rows,
                key,
                Some(next),
            ).len());
            lemma_seek_walk(rows, key, Some(next), size, (steps - 1) as nat);
        },
        None => {},
    }
}

/// Seek pages are free of gaps and of duplicates: over ordered rows that do not
/// change, the pages from the start on, each found by the cursor of the one
/// before, make up the rows themselves, each row once and in order.
pub proof fn lemma_seek_pages_partition<A>(rows: Seq<A>, key: spec_fn(A) -> (int, int), size: int)
    requires
        ordered(rows, key),
        size >= 1,
    ensures
        seek_walk(rows, key, None, size, rows.len() + 1) == rows,
{
    assert forall|i: int| 0 <= i < rows.len() implies behind_cursor(key, None)(
        #[trigger] rows[i],
    ) by {}
    lemma_filter_all(rows, behind_cursor(key, None));
    lemma_seek_walk(rows, key, None, size, rows.len() + 1);
}

} // verus!
