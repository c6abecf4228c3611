//! The sample repository over a table held in memory.
//!
//! Every operation is what one statement of the store does: it reads the table
//! or changes it, and reports a failure in the shape that the classification of
//! storage failures gives it. Rows are kept in the order of keyset pagination:
//! by creation instant and identifier, both descending.

use vstd::prelude::*;
use crate::classify::database_error;
use crate::classify::database_error_view;
use crate::classify::resource_error;
use crate::classify::resource_error_view;
use crate::classify::table_pointer;
use crate::classify::DATA_POINTER;
use crate::classify::DatabaseFailure;
use crate::classify::StorageError;
use crate::classify::ViolationKind;
use crate::error::pointer_source;
use crate::error::single_error;
use crate::error::text_view;
use crate::error::ErrorResult;
use crate::error::ErrorResultView;
use crate::keyset::behind;
use crate::keyset::fetched;
use crate::keyset::first_rows;
use crate::keyset::key_lt;
use crate::keyset::ordered;
use crate::keyset::rows_behind;
use crate::keyset::behind_cursor;
use crate::model::copy_text;
use crate::model::copy_translations;
use crate::model::list_key;
use crate::model::list_view;
use crate::model::translations_view;
use crate::model::Amount;
use crate::model::SampleDetail;
use crate::model::SampleDetailView;
use crate::model::SampleList;
use crate::model::SampleListView;
use crate::model::SampleRequest;
use crate::model::SampleRequestView;
use crate::model::SampleSeekFilter;
use crate::model::SampleTranslation;
use crate::model::SampleTranslationView;
use crate::page::page_window;
use crate::reconcile::languages_unique;
use crate::reconcile::lemma_reconciled;
use crate::reconcile::reconcile;
use crate::reconcile::reconciled;
use crate::reconcile::unique_languages;
use crate::page::PageRequest;
use crate::seek::SeekRequest;
use crate::text::contains_text;
use crate::text::lowercase;
use crate::text::text_contains;
use crate::text::to_lowercase;

verus! {

/// The name of the entity in pointers.
pub const ENTITY: &'static str = "sample";

/// The name of the table that holds the translations.
pub const TRANSLATION_TABLE: &'static str = "sample_translation";

/// The version of a sample that has just been created.
pub const INITIAL_VERSION: i16 = 1;

/// A stored sample with its translations.
#[derive(Debug, Clone, PartialEq, Eq)]
pub struct SampleRow {
    pub id: i64,
    pub name: String,
    pub description: Option<String>,
    pub amount: Amount,
    /// Raised by one with every write to the row.
    pub version: i16,
    pub created_at: i128,
    pub created_by: String,
    pub last_modified_at: i128,
    pub last_modified_by: String,
    /// Set when the sample is deleted; a deleted sample is left out of all reads.
    pub deleted_at: Option<i128>,
    pub deleted_by: Option<String>,
    /// The translations of the sample, at most one per language.
    pub translations: Vec<SampleTranslation>,
}

/// What a [`SampleRow`] stands for.
pub struct SampleRowView {
    pub id: int,
    pub name: Seq<char>,
    pub description: Option<Seq<char>>,
    pub amount: Amount,
    pub version: int,
    pub created_at: int,
    pub created_by: Seq<char>,
    pub last_modified_at: int,
    pub last_modified_by: Seq<char>,
    pub deleted_at: Option<int>,
    pub deleted_by: Option<Seq<char>>,
    pub translations: Seq<SampleTranslationView>,
}

impl View for SampleRow {
    type V = SampleRowView;

    open spec fn view(&self) -> SampleRowView {
        SampleRowView {
            id: self.id as int,
            name: self.name@,
            description: text_view(self.description),
            amount: self.amount,
            version: self.version as int,
            created_at: self.created_at as int,
            created_by: self.created_by@,
            last_modified_at: self.last_modified_at as int,
            last_modified_by: self.last_modified_by@,
            deleted_at: match self.deleted_at {
                Some(at) => Some(at as int),
                None => None,
            },
            deleted_by: text_view(self.deleted_by),
            translations: translations_view(self.translations@),
        }
    }
}

/// The rows that a table holds, in order.
pub open spec fn rows_view(rows: Seq<SampleRow>) -> Seq<SampleRowView> {
    rows.map_values(|row: SampleRow| row@)
}

/// The function that gives each stored row its key: its creation instant,
/// then its identifier.
pub open spec fn stored_key() -> spec_fn(SampleRowView) -> (int, int) {
    |row: SampleRowView| (row.created_at, row.id)
}

/// The first position at or behind `from` of a row with identifier `id`; the
/// number of rows where there is none.
pub open spec fn find_from(rows: Seq<SampleRowView>, id: int, from: int) -> int
    decreases rows.len() - from,
{
    if from < 0 || from >= rows.len() {
        rows.len() as int
    } else if rows[from].id == id {
        from
    } else {
        find_from(rows, id, from + 1)
    }
}

/// The position of the row with identifier `id`; the number of rows where
/// there is none.
pub open spec fn find(rows: Seq<SampleRowView>, id: int) -> int {
    find_from(rows, id, 0)
}

/// Whether a row with identifier `id` is stored, deleted or not.
pub open spec fn stored(rows: Seq<SampleRowView>, id: int) -> bool {
    find(rows, id) < rows.len()
}

/// Whether a row with identifier `id` is stored and not deleted.
pub open spec fn live(rows: Seq<SampleRowView>, id: int) -> bool {
    stored(rows, id) && rows[find(rows, id)].deleted_at is None
}

/// What the repository holds: its rows in order, and the identifier that the
/// next created sample gets.
pub struct SampleRepositoryView {
    pub rows: Seq<SampleRowView>,
    pub next_id: int,
}

impl SampleRepositoryView {
    /// The table is well formed when its rows are in descending order of their
    /// keys, no identifier occurs twice, every identifier has been handed out,
    /// and no sample has two translations in one language.
    pub open spec fn wf(self) -> bool {
        &&& ordered(self.rows, stored_key())
        &&& forall|i: int, j: int|
            0 <= i < j < self.rows.len() ==> (#[trigger] self.rows[i]).id != (
            #[trigger] self.rows[j]).id
        &&& forall|i: int| 0 <= i < self.rows.len() ==> (#[trigger] self.rows[i]).id < self.next_id
        &&& forall|i: int|
            0 <= i < self.rows.len() ==> unique_languages((#[trigger] self.rows[i]).translations)
    }
}

/// The sample repository over a table in memory.
#[derive(Debug, Clone, PartialEq, Eq)]
pub struct SampleRepository {
    pub rows: Vec<SampleRow>,
    pub next_id: i64,
}

impl View for SampleRepository {
    type V = SampleRepositoryView;

    open spec fn view(&self) -> SampleRepositoryView {
        SampleRepositoryView { rows: rows_view(self.rows@), next_id: self.next_id as int }
    }
}

/// Whether translation `a` is preferred to `b` for `language`: one in the
/// language itself comes before one in another language; among two of the same
/// standing the one with the smaller ordinal comes first.
pub open spec fn preferred(
    a: SampleTranslationView,
    b: SampleTranslationView,
    language: Option<Seq<char>>,
) -> bool {
    let a_matches = language == Some(a.language);
    let b_matches = language == Some(b.language);
    (a_matches && !b_matches) || (a_matches == b_matches && a.ordinal < b.ordinal)
}

/// The best among the first `n` translations for `language`; of two that are
/// equally good the earlier one.
pub open spec fn best_upto(
    translations: Seq<SampleTranslationView>,
    language: Option<Seq<char>>,
    n: int,
) -> Option<SampleTranslationView>
    decreases n,
{
    if n <= 0 {
        None
    } else {
        match best_upto(translations, language, n - 1) {
            Some(best) => if preferred(translations[n - 1], best, language) {
                Some(translations[n - 1])
            } else {
                Some(best)
            },
            None => Some(translations[n - 1]),
        }
    }
}

/// The translation that stands for a sample in `language`: the one in that
/// language where there is one, the one with the smallest ordinal otherwise;
/// none where the sample has no translation.
pub open spec fn best_translation(
    translations: Seq<SampleTranslationView>,
    language: Option<Seq<char>>,
) -> Option<SampleTranslationView> {
    best_upto(translations, language, translations.len() as int)
}

/// What is chosen among the first `n` translations: one of them, to which none
/// of them is preferred, and before which stand only translations that it is
/// preferred to. Nothing is chosen only where there is nothing to choose from.
pub proof fn lemma_best_upto(
    translations: Seq<SampleTranslationView>,
    language: Option<Seq<char>>,
    n: int,
)
    requires
        0 <= n <= translations.len(),
    ensures
        match best_upto(translations, language, n) {
            Some(best) => exists|i: int|
                {
                    &&& 0 <= i < n
                    &&& #[trigger] translations[i] == best
                    &&& forall|j: int|
                        0 <= j < n ==> !preferred(#[trigger] translations[j], best, language)
                    &&& forall|j: int|
                        0 <= j < i ==> preferred(best, #[trigger] translations[j], language)
                },
            None => n == 0,
        },
    decreases n,
{
    if n > 0 {
        lemma_best_upto(translations, language, n - 1);
        let last = translations[n - 1];
        match best_upto(translations, language, n - 1) {
            Some(before) => {
                let w = choose|i: int|
                    {
                        &&& 0 <= i < n - 1
                        &&& #[trigger] translations[i] == before
                        &&& forall|j: int|
                            0 <= j < n - 1 ==> !preferred(
                                #[trigger] translations[j],
                                before,
                                language,
                            )
                        &&& forall|j: int|
                            0 <= j < i ==> preferred(before, #[trigger] translations[j], language)
                    };
                if preferred(last, before, language) {
                    assert(translations[n - 1] == last);
                    assert forall|j: int| 0 <= j < n implies !preferred(
                        #[trigger] translations[j],
                        last,
                        language,
                    ) by {
                        if j < n - 1 {
                            assert(!preferred(translations[j], before, language));
                        }
                    }
                    assert forall|j: int| 0 <= j < n - 1 implies preferred(
                        last,
                        #[trigger] translations[j],
                        language,
                    ) by {
                        assert(!preferred(translations[j], before, language));
                    }
                } else {
                    assert(translations[w] == before);
                    assert forall|j: int| 0 <= j < n implies !preferred(
                        #[trigger] translations[j],
                        before,
                        language,
                    ) by {}
                }
            },
            None => {
                assert(translations[0] == last);
            },
        }
    }
}

/// The translation that stands for a sample is one of its translations, and
/// none of them is preferred to it: it is in the language asked for where one
/// of them is, and has the smallest ordinal of those that are as close to the
/// language as it is. Of several that are equally good it is the first. A
/// sample without translations has none that stands for it.
pub proof fn lemma_best_translation(
    translations: Seq<SampleTranslationView>,
    language: Option<Seq<char>>,
)
    ensures
        match best_translation(translations, language) {
            Some(best) => {
                &&& exists|i: int|
                    {
                        &&& 0 <= i < translations.len()
                        &&& #[trigger] translations[i] == best
                        &&& forall|j: int|
                            0 <= j < i ==> preferred(best, #[trigger] translations[j], language)
                    }
                &&& forall|j: int|
                    0 <= j < translations.len() ==> !preferred(
                        #[trigger] translations[j],
                        best,
                        language,
                    )
                &&& forall|j: int|
                    0 <= j < translations.len() && language == Some(
                        (#[trigger] translations[j]).language,
                    ) ==> best.language == translations[j].language
                &&& forall|j: int|
                    0 <= j < translations.len() && (language == Some(best.language)) == (language
                        == Some((#[trigger] translations[j]).language)) ==> best.ordinal
                        <= translations[j].ordinal
            },
            None => translations.len() == 0,
        },
{
    lemma_best_upto(translations, language, translations.len() as int);
    match best_translation(translations, language) {
        Some(best) => {
            assert forall|j: int|
                0 <= j < translations.len() && language == Some(
                    (#[trigger] translations[j]).language,
                ) implies best.language == translations[j].language by {
                assert(!preferred(translations[j], best, language));
            }
            assert forall|j: int|
                0 <= j < translations.len() && (language == Some(best.language)) == (language
                    == Some((#[trigger] translations[j]).language)) implies best.ordinal
                <= translations[j].ordinal by {
                assert(!preferred(translations[j], best, language));
            }
        },
        None => {},
    }
}

/// The name under which a sample is shown: that of the translation, where one
/// stands for it.
pub open spec fn shown_name(row: SampleRowView, translation: Option<SampleTranslationView>) -> Seq<
    char,
> {
    match translation {
        Some(t) => t.name,
        None => row.name,
    }
}

/// The description under which a sample is shown: that of the translation,
/// where one stands for it and has a description.
pub open spec fn shown_description(
    row: SampleRowView,
    translation: Option<SampleTranslationView>,
) -> Option<Seq<char>> {
    match translation {
        Some(t) => match t.description {
            Some(d) => Some(d),
            None => row.description,
        },
        None => row.description,
    }
}

/// The translation that stands for `row` in an answer: the best one for
/// `language` where the answer is to be translated, none otherwise.
pub open spec fn standing_translation(
    row: SampleRowView,
    translate: bool,
    language: Option<Seq<char>>,
) -> Option<SampleTranslationView> {
    if translate {
        best_translation(row.translations, language)
    } else {
        None
    }
}

/// A stored row as an answer shows it in full, without the list of its translations.
pub open spec fn detail_of(row: SampleRowView, translation: Option<SampleTranslationView>)
    -> SampleDetailView {
    SampleDetailView {
        id: row.id,
        name: shown_name(row, translation),
        description: shown_description(row, translation),
        amount: row.amount,
        version: row.version,
        translations: None,
        created_at: row.created_at,
    }
}

/// A stored row as a listing shows it.
pub open spec fn listed(row: SampleRowView, translation: Option<SampleTranslationView>)
    -> SampleListView {
    SampleListView {
        id: row.id,
        name: shown_name(row, translation),
        description: shown_description(row, translation),
        amount: row.amount,
        created_at: row.created_at,
    }
}

/// Whether `name` passes the text filter `query`: it contains the query,
/// letter case aside. Every name passes where no query is given.
pub open spec fn matches_query(name: Seq<char>, query: Option<Seq<char>>) -> bool {
    match query {
        Some(q) => contains_text(lowercase(name), lowercase(q)),
        None => true,
    }
}

/// Whether a keyset-paginated listing shows `row`: the sample is not deleted,
/// and its own name or the name under which it is shown passes the text filter.
pub open spec fn seek_selected(
    row: SampleRowView,
    language: Option<Seq<char>>,
    query: Option<Seq<char>>,
) -> bool {
    &&& row.deleted_at is None
    &&& (matches_query(row.name, query) || matches_query(
        shown_name(row, best_translation(row.translations, language)),
        query,
    ))
}

/// What a keyset-paginated listing shows of the first `n` rows, in order: each
/// selected row under the translation that stands for it in `language`.
pub open spec fn seek_dataset_upto(
    rows: Seq<SampleRowView>,
    language: Option<Seq<char>>,
    query: Option<Seq<char>>,
    n: int,
) -> Seq<SampleListView>
    decreases n,
{
    if n <= 0 {
        Seq::empty()
    } else if seek_selected(rows[n - 1], language, query) {
        seek_dataset_upto(rows, language, query, n - 1).push(
            listed(rows[n - 1], best_translation(rows[n - 1].translations, language)),
        )
    } else {
        seek_dataset_upto(rows, language, query, n - 1)
    }
}

/// The whole result set of a keyset-paginated listing, before any cursor or
/// limit is applied.
pub open spec fn seek_dataset(
    rows: Seq<SampleRowView>,
    language: Option<Seq<char>>,
    query: Option<Seq<char>>,
) -> Seq<SampleListView> {
    seek_dataset_upto(rows, language, query, rows.len() as int)
}

/// Whether an offset-paginated listing shows `row`: the sample is not deleted
/// and its name passes the text filter.
pub open spec fn page_selected(row: SampleRowView, query: Option<Seq<char>>) -> bool {
    row.deleted_at is None && matches_query(row.name, query)
}

/// What an offset-paginated listing shows of the first `n` rows, in order.
pub open spec fn page_dataset_upto(rows: Seq<SampleRowView>, query: Option<Seq<char>>, n: int)
    -> Seq<SampleListView>
    decreases n,
{
    if n <= 0 {
        Seq::empty()
    } else if page_selected(rows[n - 1], query) {
        page_dataset_upto(rows, query, n - 1).push(listed(rows[n - 1], None))
    } else {
        page_dataset_upto(rows, query, n - 1)
    }
}

/// The whole result set of an offset-paginated listing, before offset and
/// limit are applied.
pub open spec fn page_dataset(rows: Seq<SampleRowView>, query: Option<Seq<char>>) -> Seq<
    SampleListView,
> {
    page_dataset_upto(rows, query, rows.len() as int)
}

/// What the caller sees where the store refuses a statement for a reason that
/// has no class of its own.
pub open spec fn refused_view() -> ErrorResultView {
    database_error_view(StorageError::Other)
}

/// The first rows of a list that grows by one: the new row is among them
/// exactly where the limit was not reached before.
pub proof fn lemma_first_rows_push<A>(rows: Seq<A>, row: A, limit: int)
    ensures
        first_rows(rows.push(row), limit) == if rows.len() < limit {
            first_rows(rows, limit).push(row)
        } else {
            first_rows(rows, limit)
        },
        first_rows(rows, limit).len() == if limit <= 0 {
            0
        } else if rows.len() < limit {
            rows.len() as int
        } else {
            limit
        },
{
    if limit > 0 {
        if rows.len() < limit {
            assert(first_rows(rows.push(row), limit) =~= first_rows(rows, limit).push(row));
        } else {
            assert(first_rows(rows.push(row), limit) =~= first_rows(rows, limit));
        }
    }
}

/// The window of a list that grows by one: the new row is in it exactly where
/// the offset was reached and the window was not full before.
pub proof fn lemma_page_window_push<A>(rows: Seq<A>, row: A, offset: int, size: int)
    requires
        0 <= offset,
        0 <= size,
    ensures
        page_window(rows.push(row), offset, size) == if offset <= rows.len() && rows.len()
            - offset < size {
            page_window(rows, offset, size).push(row)
        } else {
            page_window(rows, offset, size)
        },
        page_window(rows, offset, size).len() == if offset >= rows.len() {
            0
        } else if size < rows.len() - offset {
            size
        } else {
            rows.len() - offset
        },
{
    if offset <= rows.len() && rows.len() - offset < size {
        assert(page_window(rows.push(row), offset, size) =~= page_window(rows, offset, size).push(
            row,
        ));
    } else {
        assert(page_window(rows.push(row), offset, size) =~= page_window(rows, offset, size));
    }
}

/// The failure of a read for a single sample that found no row.
pub open spec fn not_found_view(id: int) -> ErrorResultView {
    resource_error_view(ENTITY@, id, None, StorageError::RowNotFound)
}

/// The failure of a conditioned write that found the sample, but not at the
/// submitted `version`.
pub open spec fn conflict_view(id: int, version: int) -> ErrorResultView {
    resource_error_view(ENTITY@, id, Some(version), StorageError::RowNotFound)
}

/// The failure of a write of translations for a sample that is not stored.
pub open spec fn foreign_key_view() -> ErrorResultView {
    single_error(404, None, "not_found"@, pointer_source(table_pointer(TRANSLATION_TABLE@)))
}

/// The failure of a write that would store two translations of one sample in
/// one language.
pub open spec fn duplicate_view() -> ErrorResultView {
    single_error(409, None, "duplicate"@, pointer_source(DATA_POINTER@))
}

/// Where a row with `key` is put: right behind the last row with a greater key.
pub open spec fn insert_position(rows: Seq<SampleRowView>, key: (int, int)) -> int
    decreases rows.len(),
{
    if rows.len() == 0 {
        0
    } else if key_lt(key, stored_key()(rows.last())) {
        rows.len() as int
    } else {
        insert_position(rows.drop_last(), key)
    }
}

/// The row of a sample that has just been created with identifier `id` by
/// `user` at the instant `now`.
pub open spec fn created_row(id: int, request: SampleRequestView, user: Seq<char>, now: int)
    -> SampleRowView {
    SampleRowView {
        id,
        name: request.name,
        description: request.description,
        amount: request.amount,
        version: INITIAL_VERSION as int,
        created_at: now,
        created_by: user,
        last_modified_at: now,
        last_modified_by: user,
        deleted_at: None,
        deleted_by: None,
        translations: Seq::empty(),
    }
}

/// The repository after a sample has been created.
pub open spec fn created(
    state: SampleRepositoryView,
    request: SampleRequestView,
    user: Seq<char>,
    now: int,
) -> SampleRepositoryView {
    SampleRepositoryView {
        rows: state.rows.insert(
            insert_position(state.rows, (now, state.next_id)),
            created_row(state.next_id, request, user, now),
        ),
        next_id: state.next_id + 1,
    }
}

/// Why a write to the sample `id` that is conditioned on `version` fails, where
/// it does: no sample with that identifier is stored; or one is, but at another
/// version; or the version cannot be raised any further.
pub open spec fn write_error(rows: Seq<SampleRowView>, id: int, version: int) -> Option<
    ErrorResultView,
> {
    if !stored(rows, id) {
        Some(not_found_view(id))
    } else if rows[find(rows, id)].version != version {
        Some(conflict_view(id, version))
    } else if version >= i16::MAX {
        Some(refused_view())
    } else {
        None
    }
}

/// A row after an update by `user` at the instant `now`: the content is that of
/// the request and the version is one higher.
pub open spec fn updated_row(row: SampleRowView, request: SampleRequestView, user: Seq<char>, now: int)
    -> SampleRowView {
    SampleRowView {
        name: request.name,
        description: request.description,
        amount: request.amount,
        version: row.version + 1,
        last_modified_at: now,
        last_modified_by: user,
        ..row
    }
}

/// A row after its deletion by `user` at the instant `now`: it is marked as
/// deleted and the version is one higher.
pub open spec fn deleted_row(row: SampleRowView, user: Seq<char>, now: int) -> SampleRowView {
    SampleRowView { version: row.version + 1, deleted_at: Some(now), deleted_by: Some(user), ..row }
}

/// A row with other translations.
pub open spec fn with_translations(row: SampleRowView, translations: Seq<SampleTranslationView>)
    -> SampleRowView {
    SampleRowView { translations, ..row }
}

/// The repository with `row` in the place of the row with identifier `id`.
pub open spec fn with_row(state: SampleRepositoryView, id: int, row: SampleRowView)
    -> SampleRepositoryView {
    SampleRepositoryView { rows: state.rows.update(find(state.rows, id), row), ..state }
}

/// The repository after an update of the sample `id`.
pub open spec fn updated(
    state: SampleRepositoryView,
    id: int,
    request: SampleRequestView,
    user: Seq<char>,
    now: int,
) -> SampleRepositoryView {
    with_row(state, id, updated_row(state.rows[find(state.rows, id)], request, user, now))
}

/// The repository after the deletion of the sample `id`.
pub open spec fn deleted(state: SampleRepositoryView, id: int, user: Seq<char>, now: int)
    -> SampleRepositoryView {
    with_row(state, id, deleted_row(state.rows[find(state.rows, id)], user, now))
}

/// Why the translations `added` cannot be stored for the sample `id`, where
/// they cannot: there are some, but the sample is not stored; or the sample
/// would then have two translations in one language.
pub open spec fn add_translations_error(
    rows: Seq<SampleRowView>,
    id: int,
    added: Seq<SampleTranslationView>,
) -> Option<ErrorResultView> {
    if !stored(rows, id) {
        if added.len() > 0 {
            Some(foreign_key_view())
        } else {
            None
        }
    } else if !unique_languages(rows[find(rows, id)].translations + added) {
        Some(duplicate_view())
    } else {
        None
    }
}

/// The repository after the translations `added` have been stored for the sample `id`.
pub open spec fn with_added_translations(
    state: SampleRepositoryView,
    id: int,
    added: Seq<SampleTranslationView>,
) -> SampleRepositoryView {
    if stored(state.rows, id) {
        with_row(
            state,
            id,
            with_translations(
                state.rows[find(state.rows, id)],
                state.rows[find(state.rows, id)].translations + added,
            ),
        )
    } else {
        state
    }
}

/// Why the translations of the sample `id` cannot be reconciled with `desired`,
/// where they cannot: some are desired, but the sample is not stored; or two of
/// the desired ones are in one language.
pub open spec fn reconcile_error(
    rows: Seq<SampleRowView>,
    id: int,
    desired: Seq<SampleTranslationView>,
) -> Option<ErrorResultView> {
    if !stored(rows, id) {
        if desired.len() > 0 {
            Some(foreign_key_view())
        } else {
            None
        }
    } else if !unique_languages(desired) {
        Some(refused_view())
    } else {
        None
    }
}

/// The repository after the translations of the sample `id` have been
/// reconciled with `desired`.
pub open spec fn with_reconciled_translations(
    state: SampleRepositoryView,
    id: int,
    desired: Seq<SampleTranslationView>,
) -> SampleRepositoryView {
    if stored(state.rows, id) {
        with_row(
            state,
            id,
            with_translations(
                state.rows[find(state.rows, id)],
                reconciled(state.rows[find(state.rows, id)].translations, desired),
            ),
        )
    } else {
        state
    }
}

/// Where the row of a key is put, the rows before have greater keys and the
/// rows from there on have keys that are not greater.
pub proof fn lemma_insert_position(rows: Seq<SampleRowView>, key: (int, int))
    requires
        ordered(rows, stored_key()),
    ensures
        0 <= insert_position(rows, key) <= rows.len(),
        forall|i: int|
            0 <= i < insert_position(rows, key) ==> key_lt(key, stored_key()(#[trigger] rows[i])),
        forall|i: int|
            insert_position(rows, key) <= i < rows.len() ==> !key_lt(
                key,
                stored_key()(#[trigger] rows[i]),
            ),
    decreases rows.len(),
{
    if rows.len() > 0 {
        if key_lt(key, stored_key()(rows.last())) {
            assert forall|i: int| 0 <= i < rows.len() implies key_lt(
                key,
                stored_key()(#[trigger] rows[i]),
            ) by {
                if i < rows.len() - 1 {
                    assert(key_lt(stored_key()(rows[rows.len() - 1]), stored_key()(rows[i])));
                }
            }
        } else {
            let front = rows.drop_last();
            crate::keyset::lemma_ordered_drop_last(rows, stored_key());
            lemma_insert_position(front, key);
            assert forall|i: int| 0 <= i < insert_position(rows, key) implies key_lt(
                key,
                stored_key()(#[trigger] rows[i]),
            ) by {
                assert(front[i] == rows[i]);
            }
            assert forall|i: int| insert_position(rows, key) <= i < rows.len() implies !key_lt(
                key,
                stored_key()(#[trigger] rows[i]),
            ) by {
                if i < rows.len() - 1 {
                    assert(front[i] == rows[i]);
                }
            }
        }
    }
}

/// Creating a sample keeps the table well formed.
pub proof fn lemma_created_wf(
    state: SampleRepositoryView,
    request: SampleRequestView,
    user: Seq<char>,
    now: int,
)
    requires
        state.wf(),
    ensures
        created(state, request, user, now).wf(),
{
    let key = (now, state.next_id);
    let p = insert_position(state.rows, key);
    let row = created_row(state.next_id, request, user, now);
    let after = created(state, request, user, now);
    lemma_insert_position(state.rows, key);
    assert forall|i: int, j: int| 0 <= i < j < after.rows.len() implies key_lt(
        stored_key()(#[trigger] after.rows[j]),
        stored_key()(#[trigger] after.rows[i]),
    ) by {
        if j < p {
            assert(after.rows[i] == state.rows[i] && after.rows[j] == state.rows[j]);
        } else if j == p {
            assert(after.rows[i] == state.rows[i]);
            assert(key_lt(key, stored_key()(state.rows[i])));
        } else if i < p {
            assert(after.rows[i] == state.rows[i] && after.rows[j] == state.rows[j - 1]);
            if i != j - 1 {
                assert(key_lt(stored_key()(state.rows[j - 1]), stored_key()(state.rows[i])));
            }
        } else if i == p {
            assert(after.rows[j] == state.rows[j - 1]);
            assert(!key_lt(key, stored_key()(state.rows[j - 1])));
            assert(state.rows[j - 1].id < state.next_id);
        } else {
            assert(after.rows[i] == state.rows[i - 1] && after.rows[j] == state.rows[j - 1]);
        }
    }
    assert forall|i: int, j: int| 0 <= i < j < after.rows.len() implies (#[trigger] after.rows[i]).id
        != (#[trigger] after.rows[j]).id by {
        let a = if i < p {
            i
        } else {
            i - 1
        };
        let b = if j < p {
            j
        } else {
            j - 1
        };
        if i != p {
            assert(after.rows[i] == state.rows[a]);
            assert(state.rows[a].id < state.next_id);
        }
        if j != p {
            assert(after.rows[j] == state.rows[b]);
            assert(state.rows[b].id < state.next_id);
        }
        if i != p && j != p {
            assert(state.rows[a].id != state.rows[b].id);
        }
    }
    assert forall|i: int| 0 <= i < after.rows.len() implies (#[trigger] after.rows[i]).id
        < after.next_id && unique_languages(after.rows[i].translations) by {
        if i < p {
            assert(after.rows[i] == state.rows[i]);
        } else if i > p {
            assert(after.rows[i] == state.rows[i - 1]);
        }
    }
}

/// A sample that has just been created is found under its identifier, in the
/// row that was made for it.
pub proof fn lemma_created_found(
    state: SampleRepositoryView,
    request: SampleRequestView,
    user: Seq<char>,
    now: int,
)
    requires
        state.wf(),
    ensures
        stored(created(state, request, user, now).rows, state.next_id),
        created(state, request, user, now).rows[find(
            created(state, request, user, now).rows,
            state.next_id,
        )] == created_row(state.next_id, request, user, now),
{
    let after = created(state, request, user, now);
    let p = insert_position(state.rows, (now, state.next_id));
    lemma_insert_position(state.rows, (now, state.next_id));
    lemma_created_wf(state, request, user, now);
    lemma_find_from(after.rows, state.next_id, 0);
    assert(after.rows[p] == created_row(state.next_id, request, user, now));
    let q = find(after.rows, state.next_id);
    if q != p {
        assert(q < p);
        assert(after.rows[q].id == after.rows[p].id);
    }
}

/// Two tables that hold the same identifiers at the same positions find every
/// identifier at the same position.
pub proof fn lemma_find_same_ids(
    rows: Seq<SampleRowView>,
    other: Seq<SampleRowView>,
    id: int,
    from: int,
)
    requires
        rows.len() == other.len(),
        forall|i: int| 0 <= i < rows.len() ==> (#[trigger] rows[i]).id == (#[trigger] other[i]).id,
        0 <= from,
    ensures
        find_from(rows, id, from) == find_from(other, id, from),
    decreases rows.len() - from,
{
    if from < rows.len() {
        assert(rows[from].id == other[from].id);
        if rows[from].id != id {
            lemma_find_same_ids(rows, other, id, from + 1);
        }
    }
}

/// Putting a row in the place of the stored row with the same identifier and
/// creation instant keeps the table well formed, provided that the new row has
/// no two translations in one language.
pub proof fn lemma_with_row_wf(state: SampleRepositoryView, id: int, row: SampleRowView)
    requires
        state.wf(),
        stored(state.rows, id),
        row.id == id,
        row.created_at == state.rows[find(state.rows, id)].created_at,
        unique_languages(row.translations),
    ensures
        with_row(state, id, row).wf(),
        find(with_row(state, id, row).rows, id) == find(state.rows, id),
        with_row(state, id, row).rows[find(state.rows, id)] == row,
{
    let p = find(state.rows, id);
    lemma_find_from(state.rows, id, 0);
    let after = with_row(state, id, row);
    assert forall|i: int| 0 <= i < after.rows.len() implies stored_key()(#[trigger] after.rows[i])
        == stored_key()(state.rows[i]) && after.rows[i].id == state.rows[i].id by {}
    assert forall|i: int, j: int| 0 <= i < j < after.rows.len() implies key_lt(
        stored_key()(#[trigger] after.rows[j]),
        stored_key()(#[trigger] after.rows[i]),
    ) by {
        assert(key_lt(stored_key()(state.rows[j]), stored_key()(state.rows[i])));
    }
    assert forall|i: int, j: int| 0 <= i < j < after.rows.len() implies (#[trigger] after.rows[i]).id
        != (#[trigger] after.rows[j]).id by {
        assert(state.rows[i].id != state.rows[j].id);
    }
    assert forall|i: int| 0 <= i < after.rows.len() implies (#[trigger] after.rows[i]).id
        < after.next_id && unique_languages(after.rows[i].translations) by {
        assert(state.rows[i].id < state.next_id);
        if i != p {
            assert(after.rows[i] == state.rows[i]);
        }
    }
    assert forall|i: int| 0 <= i < state.rows.len() implies (#[trigger] state.rows[i]).id == (
    #[trigger] after.rows[i]).id by {}
    lemma_find_same_ids(state.rows, after.rows, id, 0);
}

/// A row that is put in the place of the stored row with the same identifier is
/// found under that identifier, at the same position.
pub proof fn lemma_with_row_found(state: SampleRepositoryView, id: int, row: SampleRowView)
    requires
        stored(state.rows, id),
        row.id == id,
    ensures
        stored(with_row(state, id, row).rows, id),
        find(with_row(state, id, row).rows, id) == find(state.rows, id),
        with_row(state, id, row).rows[find(state.rows, id)] == row,
{
    lemma_find_from(state.rows, id, 0);
    let after = with_row(state, id, row);
    assert forall|i: int| 0 <= i < state.rows.len() implies (#[trigger] state.rows[i]).id == (
    #[trigger] after.rows[i]).id by {}
    lemma_find_same_ids(state.rows, after.rows, id, 0);
}

/// A write to a sample at its stored version goes ahead and raises the version
/// by exactly one: after an update the sample is stored one version higher, and
/// the same write with the version from before, now stale, fails with a version
/// conflict that carries that version.
pub proof fn lemma_update_raises_version(
    state: SampleRepositoryView,
    id: int,
    request: SampleRequestView,
    version: int,
    user: Seq<char>,
    now: int,
)
    requires
        write_error(state.rows, id, version) is None,
    ensures
        stored(updated(state, id, request, user, now).rows, id),
        updated(state, id, request, user, now).rows[find(
            updated(state, id, request, user, now).rows,
            id,
        )].version == version + 1,
        write_error(updated(state, id, request, user, now).rows, id, version) == Some(
            conflict_view(id, version),
        ),
{
    lemma_find_from(state.rows, id, 0);
    lemma_with_row_found(
        state,
        id,
        updated_row(state.rows[find(state.rows, id)], request, user, now),
    );
}

/// A deletion of a sample at its stored version goes ahead and raises the
/// version by exactly one: afterwards the sample is stored one version higher
/// and marked as deleted, and the same deletion with the version from before,
/// now stale, fails with a version conflict that carries that version.
pub proof fn lemma_delete_raises_version(
    state: SampleRepositoryView,
    id: int,
    version: int,
    user: Seq<char>,
    now: int,
)
    requires
        write_error(state.rows, id, version) is None,
    ensures
        stored(deleted(state, id, user, now).rows, id),
        !live(deleted(state, id, user, now).rows, id),
        deleted(state, id, user, now).rows[find(deleted(state, id, user, now).rows, id)].version
            == version + 1,
        write_error(deleted(state, id, user, now).rows, id, version) == Some(
            conflict_view(id, version),
        ),
{
    lemma_find_from(state.rows, id, 0);
    lemma_with_row_found(state, id, deleted_row(state.rows[find(state.rows, id)], user, now));
}

/// What a version conflict tells the caller: status 409, the code
/// `version_conflict`, the identifier of the sample, the pointer to its version,
/// and the submitted version as the one context value.
pub proof fn lemma_conflict_carries_version(id: int, version: int)
    ensures
        conflict_view(id, version).status == 409,
        conflict_view(id, version).errors.len() == 1,
        conflict_view(id, version).errors[0].id == Some(id),
        conflict_view(id, version).errors[0].code == "version_conflict"@,
        conflict_view(id, version).errors[0].source.pointer == Some(
            crate::error::version_pointer(ENTITY@),
        ),
        conflict_view(id, version).errors[0].source.meta == Some(
            seq![("version"@, crate::error::MetaValueView::Integer(version))],
        ),
{
}

/// A write to a sample that is not stored is reported as not found, whatever
/// version is submitted: status 404 and the code `not_found`, never a version
/// conflict.
pub proof fn lemma_unknown_id_not_found(rows: Seq<SampleRowView>, id: int, version: int)
    requires
        !stored(rows, id),
    ensures
        write_error(rows, id, version) == Some(not_found_view(id)),
        not_found_view(id).status == 404,
        not_found_view(id).errors.len() == 1,
        not_found_view(id).errors[0].id == Some(id),
        not_found_view(id).errors[0].code == "not_found"@,
        not_found_view(id).errors[0].source.pointer == Some(crate::error::id_pointer(ENTITY@)),
        not_found_view(id) != conflict_view(id, version),
{
}

/// The listing of a well-ordered table is in order itself: each of its rows
/// has the key of a looked-at row of the table, and the keys descend.
pub proof fn lemma_seek_dataset_ordered(
    rows: Seq<SampleRowView>,
    language: Option<Seq<char>>,
    query: Option<Seq<char>>,
    n: int,
)
    requires
        ordered(rows, stored_key()),
        0 <= n <= rows.len(),
    ensures
        ordered(seek_dataset_upto(rows, language, query, n), list_key()),
        forall|k: int|
            0 <= k < seek_dataset_upto(rows, language, query, n).len() ==> exists|i: int|
                0 <= i < n && stored_key()(rows[i]) == list_key()(
                    #[trigger] seek_dataset_upto(rows, language, query, n)[k],
                ),
    decreases n,
{
    if n > 0 {
        lemma_seek_dataset_ordered(rows, language, query, n - 1);
        let before = seek_dataset_upto(rows, language, query, n - 1);
        let now = seek_dataset_upto(rows, language, query, n);
        if seek_selected(rows[n - 1], language, query) {
            assert forall|k: int| 0 <= k < now.len() implies exists|i: int|
                0 <= i < n && stored_key()(rows[i]) == list_key()(#[trigger] now[k]) by {
                if k < before.len() {
                    assert(now[k] == before[k]);
                    let w = choose|w: int|
                        0 <= w < n - 1 && stored_key()(rows[w]) == list_key()(before[k]);
                    assert(stored_key()(rows[w]) == list_key()(now[k]));
                } else {
                    assert(stored_key()(rows[n - 1]) == list_key()(now[k]));
                }
            }
            assert forall|i: int, j: int| 0 <= i < j < now.len() implies key_lt(
                list_key()(#[trigger] now[j]),
                list_key()(#[trigger] now[i]),
            ) by {
                if j < before.len() {
                    assert(now[i] == before[i] && now[j] == before[j]);
                } else {
                    assert(now[i] == before[i]);
                    let w = choose|w: int|
                        0 <= w < n - 1 && stored_key()(rows[w]) == list_key()(before[i]);
                    assert(key_lt(stored_key()(rows[n - 1]), stored_key()(rows[w])));
                }
            }
        } else {
            assert forall|k: int| 0 <= k < now.len() implies exists|i: int|
                0 <= i < n && stored_key()(rows[i]) == list_key()(#[trigger] now[k]) by {
                let w = choose|w: int|
                    0 <= w < n - 1 && stored_key()(rows[w]) == list_key()(before[k]);
                assert(stored_key()(rows[w]) == list_key()(now[k]));
            }
        }
    }
}

/// Over a repository that does not change, the pages of the keyset-paginated
/// listing, each found by the cursor of the one before, make up the whole
/// listing: every sample that it holds is on exactly one page, in order.
pub proof fn lemma_seek_visits_every_sample_once(
    state: SampleRepositoryView,
    language: Option<Seq<char>>,
    query: Option<Seq<char>>,
    size: int,
)
    requires
        state.wf(),
        size >= 1,
    ensures
        ordered(seek_dataset(state.rows, language, query), list_key()),
        crate::keyset::seek_walk(
            seek_dataset(state.rows, language, query),
            list_key(),
            None,
            size,
            seek_dataset(state.rows, language, query).len() + 1,
        ) == seek_dataset(state.rows, language, query),
{
    lemma_seek_dataset_ordered(state.rows, language, query, state.rows.len() as int);
    crate::keyset::lemma_seek_pages_partition(
        seek_dataset(state.rows, language, query),
        list_key(),
        size,
    );
}

/// The position of the row with identifier `id` lies in the table, the row at
/// it has that identifier, and no row before it has.
pub proof fn lemma_find_from(rows: Seq<SampleRowView>, id: int, from: int)
    requires
        0 <= from <= rows.len(),
    ensures
        from <= find_from(rows, id, from) <= rows.len(),
        find_from(rows, id, from) < rows.len() ==> rows[find_from(rows, id, from)].id == id,
        forall|k: int| from <= k < find_from(rows, id, from) ==> (#[trigger] rows[k]).id != id,
    decreases rows.len() - from,
{
    if from < rows.len() && rows[from].id != id {
        lemma_find_from(rows, id, from + 1);
    }
}

/// Whether `name` passes the text filter whose lower-case form is `query`.
fn name_matches(name: &String, query: &Option<String>) -> (r: bool)
    ensures
        r == match *query {
            Some(q) => contains_text(lowercase(name@), q@),
            None => true,
        },
{
    match query {
        Some(q) => {
            let lowered = to_lowercase(name.as_str());
            text_contains(lowered.as_str(), q.as_str())
        },
        None => true,
    }
}

/// The lower-case form of a text filter.
fn lowered_query(query: &Option<String>) -> (r: Option<String>)
    ensures
        match *query {
            Some(q) => r is Some && r->Some_0@ == lowercase(q@),
            None => r is None,
        },
{
    match query {
        Some(q) => Some(to_lowercase(q.as_str())),
        None => None,
    }
}

/// The position of the best translation for `language`, where there is a translation.
fn best_position(translations: &Vec<SampleTranslation>, language: &Option<String>) -> (r: Option<
    usize,
>)
    ensures
        match r {
            Some(i) => i < translations@.len() && best_translation(
                translations_view(translations@),
                text_view(*language),
            ) == Some(translations@[i as int]@),
            None => best_translation(translations_view(translations@), text_view(*language))
                is None,
        },
{
    let n = translations.len();
    let mut best: Option<usize> = None;
    let mut i: usize = 0;
    while i < n
        invariant
            i <= n,
            n == translations@.len(),
            match best {
                Some(b) => b < i && best_upto(
                    translations_view(translations@),
                    text_view(*language),
                    i as int,
                ) == Some(translations@[b as int]@),
                None => best_upto(translations_view(translations@), text_view(*language), i as int)
                    is None,
            },
        decreases n - i,
    {
        let candidate = &translations[i];
        assert(translations_view(translations@)[i as int] == candidate@);
        match best {
            Some(b) => {
                let current = &translations[b];
                let candidate_matches = match language {
                    Some(l) => *l == candidate.language,
                    None => false,
                };
                let current_matches = match language {
                    Some(l) => *l == current.language,
                    None => false,
                };
                if (candidate_matches && !current_matches) || (candidate_matches == current_matches
                    && candidate.ordinal < current.ordinal) {
                    best = Some(i);
                }
            },
            None => {
                best = Some(i);
            },
        }
        i = i + 1;
    }
    best
}

/// What the caller sees where a write of translations violates a constraint
/// of their table.
fn violation(kind: ViolationKind) -> (r: ErrorResult)
    requires
        kind == ViolationKind::Unique || kind == ViolationKind::ForeignKey,
    ensures
        r.wf(),
        r@ == if kind == ViolationKind::Unique {
            duplicate_view()
        } else {
            foreign_key_view()
        },
{
    database_error(
        StorageError::Database(
            DatabaseFailure {
                kind,
                table: Some(String::from_str(TRANSLATION_TABLE)),
                column: None,
                constraint: None,
                detail: None,
            },
        ),
    )
}

impl SampleRow {
    /// A copy of this row.
    pub fn copy(&self) -> (r: SampleRow)
        ensures
            r@ == self@,
    {
        SampleRow {
            id: self.id,
            name: self.name.clone(),
            description: copy_text(&self.description),
            amount: self.amount,
            version: self.version,
            created_at: self.created_at,
            created_by: self.created_by.clone(),
            last_modified_at: self.last_modified_at,
            last_modified_by: self.last_modified_by.clone(),
            deleted_at: self.deleted_at,
            deleted_by: copy_text(&self.deleted_by),
            translations: copy_translations(&self.translations),
        }
    }

    /// Whether this row comes before a row with the creation instant
    /// `created_at` and the identifier `id` in the order of the table.
    fn sorts_before(&self, created_at: i128, id: i64) -> (r: bool)
        ensures
            r == key_lt((created_at as int, id as int), stored_key()(self@)),
    {
        created_at < self.created_at || (created_at == self.created_at && id < self.id)
    }

    /// The name and the description of this row as `translation` shows them.
    fn shown(&self, translation: Option<usize>) -> (r: (String, Option<String>))
        requires
            translation is Some ==> translation->Some_0 < self.translations@.len(),
        ensures
            r.0@ == shown_name(
                self@,
                match translation {
                    Some(i) => Some(self.translations@[i as int]@),
                    None => None,
                },
            ),
            text_view(r.1) == shown_description(
                self@,
                match translation {
                    Some(i) => Some(self.translations@[i as int]@),
                    None => None,
                },
            ),
    {
        match translation {
            Some(i) => {
                let t = &self.translations[i];
                let description = match &t.description {
                    Some(d) => Some(d.clone()),
                    None => copy_text(&self.description),
                };
                (t.name.clone(), description)
            },
            None => (self.name.clone(), copy_text(&self.description)),
        }
    }
}

impl SampleRepository {
    /// A repository that holds no sample. The first sample gets the identifier 1.
    pub fn new() -> (r: SampleRepository)
        ensures
            r@.wf(),
            r@.rows.len() == 0,
            r@.next_id == 1,
    {
        SampleRepository { rows: Vec::new(), next_id: 1 }
    }

    /// A copy of the repository, to work on while this one stays as it is.
    pub fn snapshot(&self) -> (r: SampleRepository)
        ensures
            r@ == self@,
    {
        let n = self.rows.len();
        let mut rows: Vec<SampleRow> = Vec::new();
        let mut i: usize = 0;
        while i < n
            invariant
                i <= n,
                n == self.rows@.len(),
                rows_view(rows@) == rows_view(self.rows@).take(i as int),
            decreases n - i,
        {
            let ghost before = rows@;
            rows.push(self.rows[i].copy());
            assert(rows_view(rows@) =~= rows_view(before).push(self.rows@[i as int]@));
            assert(rows_view(self.rows@).take(i + 1) =~= rows_view(self.rows@).take(
                i as int,
            ).push(self.rows@[i as int]@));
            i = i + 1;
        }
        assert(rows_view(self.rows@).take(n as int) =~= rows_view(self.rows@));
        SampleRepository { rows, next_id: self.next_id }
    }

    /// The position of the row with identifier `id`, where one is stored.
    fn position(&self, id: i64) -> (r: Option<usize>)
        ensures
            match r {
                Some(i) => i == find(self@.rows, id as int) && i < self.rows@.len()
                    && self.rows@[i as int].id == id,
                None => !stored(self@.rows, id as int),
            },
    {
        let n = self.rows.len();
        let mut i: usize = 0;
        while i < n
            invariant
                i <= n,
                n == self.rows@.len(),
                find(self@.rows, id as int) == find_from(self@.rows, id as int, i as int),
            decreases n - i,
        {
            assert(self@.rows[i as int] == self.rows@[i as int]@);
            if self.rows[i].id == id {
                return Some(i);
            }
            i = i + 1;
        }
        None
    }

    /// Reads the sample with identifier `id`.
    ///
    /// Where `translate` is set, name and description are those of the
    /// translation that stands for the sample in `language`, as far as it has
    /// them. A sample that is not stored or is deleted is reported as not found.
    pub fn get(&self, id: i64, translate: bool, language: &Option<String>) -> (r: Result<
        SampleDetail,
        ErrorResult,
    >)
        ensures
            match r {
                Ok(detail) => live(self@.rows, id as int) && detail@ == detail_of(
                    self@.rows[find(self@.rows, id as int)],
                    standing_translation(
                        self@.rows[find(self@.rows, id as int)],
                        translate,
                        text_view(*language),
                    ),
                ),
                Err(error) => !live(self@.rows, id as int) && error.wf() && error@
                    == not_found_view(id as int),
            },
    {
        let found = match self.position(id) {
            Some(i) => if self.rows[i].deleted_at.is_none() {
                Some(i)
            } else {
                None
            },
            None => None,
        };
        match found {
            Some(i) => {
                let row = &self.rows[i];
                assert(self@.rows[i as int] == row@);
                let translation = if translate {
                    best_position(&row.translations, language)
                } else {
                    None
                };
                let (name, description) = row.shown(translation);
                assert(forall|k: int|
                    0 <= k < row.translations@.len() ==> translations_view(row.translations@)[k]
                        == row.translations@[k]@);
                Ok(
                    SampleDetail {
                        id: row.id,
                        name,
                        description,
                        amount: row.amount,
                        version: row.version,
                        translations: None,
                        created_at: row.created_at,
                    },
                )
            },
            None => Err(resource_error(ENTITY, id, None, StorageError::RowNotFound)),
        }
    }

    /// The rows of a keyset-paginated listing: of the samples that are not
    /// deleted and pass the filter, the first `limit` behind the cursor of the
    /// request, each shown under the translation that stands for it in the
    /// language of the filter. A negative limit is refused.
    pub fn seek(&self, filter: &SampleSeekFilter, seek_request: &SeekRequest) -> (r: Result<
        Vec<SampleList>,
        ErrorResult,
    >)
        ensures
            match r {
                Ok(rows) => seek_request.limit >= 0 && list_view(rows@) == fetched(
                    seek_dataset(self@.rows, text_view(filter.language), text_view(filter.query)),
                    list_key(),
                    seek_request.cursor(),
                    seek_request.limit as int,
                ),
                Err(error) => seek_request.limit < 0 && error.wf() && error@ == refused_view(),
            },
    {
        if seek_request.limit < 0 {
            return Err(database_error(StorageError::Other));
        }
        let limit = seek_request.limit as usize;
        let query = lowered_query(&filter.query);
        let n = self.rows.len();
        let mut out: Vec<SampleList> = Vec::new();
        let mut i: usize = 0;
        let ghost language = text_view(filter.language);
        let ghost wanted = text_view(filter.query);
        let ghost cursor = seek_request.cursor();
        proof {
            reveal(Seq::filter);
            assert(rows_behind(Seq::<SampleListView>::empty(), list_key(), cursor)
                =~= Seq::empty());
            assert(list_view(out@) =~= Seq::empty());
        }
        while i < n
            invariant
                i <= n,
                n == self.rows@.len(),
                0 <= seek_request.limit == limit,
                language == text_view(filter.language),
                wanted == text_view(filter.query),
                cursor == seek_request.cursor(),
                match filter.query {
                    Some(q) => query is Some && query->Some_0@ == lowercase(q@),
                    None => query is None,
                },
                list_view(out@) == first_rows(
                    rows_behind(
                        seek_dataset_upto(self@.rows, language, wanted, i as int),
                        list_key(),
                        cursor,
                    ),
                    limit as int,
                ),
            decreases n - i,
        {
            let row = &self.rows[i];
            let ghost dataset = seek_dataset_upto(self@.rows, language, wanted, i as int);
            let ghost behind_rows = rows_behind(dataset, list_key(), cursor);
            assert(self@.rows[i as int] == row@);
            if row.deleted_at.is_none() {
                let translation = best_position(&row.translations, &filter.language);
                let (name, description) = row.shown(translation);
                assert(forall|k: int|
                    0 <= k < row.translations@.len() ==> translations_view(row.translations@)[k]
                        == row.translations@[k]@);
                if name_matches(&row.name, &query) || name_matches(&name, &query) {
                    let is_behind = match (seek_request.created_at, seek_request.id) {
                        (Some(created_at), Some(id)) => row.created_at < created_at || (
                        row.created_at == created_at && row.id < id),
                        _ => true,
                    };
                    let shown = SampleList {
                        id: row.id,
                        name,
                        description,
                        amount: row.amount,
                        created_at: row.created_at,
                    };
                    proof {
                        reveal(Seq::filter);
                        assert(dataset.push(shown@).drop_last() =~= dataset);
                        lemma_first_rows_push(behind_rows, shown@, limit as int);
                        assert(is_behind == behind_cursor(list_key(), cursor)(shown@));
                    }
                    if is_behind && out.len() < limit {
                        let ghost before = out@;
                        out.push(shown);
                        assert(list_view(out@) =~= list_view(before).push(shown@));
                    }
                }
            }
            i = i + 1;
        }
        Ok(out)
    }

    /// The rows of an offset-paginated listing: of the samples that are not
    /// deleted and whose name passes the text filter, up to `size` behind the
    /// first `offset` ones. A negative size or offset is refused.
    pub fn page(&self, query: &Option<String>, page_request: &PageRequest) -> (r: Result<
        Vec<SampleList>,
        ErrorResult,
    >)
        ensures
            match r {
                Ok(rows) => page_request.size >= 0 && page_request.offset >= 0 && list_view(rows@)
                    == page_window(
                    page_dataset(self@.rows, text_view(*query)),
                    page_request.offset as int,
                    page_request.size as int,
                ),
                Err(error) => (page_request.size < 0 || page_request.offset < 0) && error.wf()
                    && error@ == refused_view(),
            },
    {
        if page_request.size < 0 || page_request.offset < 0 {
            return Err(database_error(StorageError::Other));
        }
        let size = page_request.size as usize;
        let offset = page_request.offset as u64;
        let lowered = lowered_query(query);
        let n = self.rows.len();
        let mut out: Vec<SampleList> = Vec::new();
        let mut matched: u64 = 0;
        let mut i: usize = 0;
        let ghost wanted = text_view(*query);
        assert(list_view(out@) =~= Seq::empty());
        while i < n
            invariant
                i <= n,
                n == self.rows@.len(),
                0 <= page_request.size == size,
                0 <= page_request.offset == offset,
                wanted == text_view(*query),
                match *query {
                    Some(q) => lowered is Some && lowered->Some_0@ == lowercase(q@),
                    None => lowered is None,
                },
                matched == page_dataset_upto(self@.rows, wanted, i as int).len(),
                matched <= i,
                list_view(out@) == page_window(
                    page_dataset_upto(self@.rows, wanted, i as int),
                    offset as int,
                    size as int,
                ),
            decreases n - i,
        {
            let row = &self.rows[i];
            let ghost dataset = page_dataset_upto(self@.rows, wanted, i as int);
            assert(self@.rows[i as int] == row@);
            if row.deleted_at.is_none() && name_matches(&row.name, &lowered) {
                let (name, description) = row.shown(None);
                let shown = SampleList {
                    id: row.id,
                    name,
                    description,
                    amount: row.amount,
                    created_at: row.created_at,
                };
                proof {
                    lemma_page_window_push(dataset, shown@, offset as int, size as int);
                }
                if matched >= offset && out.len() < size {
                    let ghost before = out@;
                    out.push(shown);
                    assert(list_view(out@) =~= list_view(before).push(shown@));
                }
                matched = matched + 1;
            }
            i = i + 1;
        }
        Ok(out)
    }

    /// The number of samples that are not deleted and whose name passes the
    /// text filter.
    pub fn count(&self, query: &Option<String>) -> (r: Result<i64, ErrorResult>)
        ensures
            match r {
                Ok(count) => count == page_dataset(self@.rows, text_view(*query)).len(),
                Err(error) => page_dataset(self@.rows, text_view(*query)).len() > i64::MAX
                    && error.wf() && error@ == refused_view(),
            },
    {
        let lowered = lowered_query(query);
        let n = self.rows.len();
        let mut matched: u64 = 0;
        let mut i: usize = 0;
        let ghost wanted = text_view(*query);
        while i < n
            invariant
                i <= n,
                n == self.rows@.len(),
                wanted == text_view(*query),
                match *query {
                    Some(q) => lowered is Some && lowered->Some_0@ == lowercase(q@),
                    None => lowered is None,
                },
                matched == page_dataset_upto(self@.rows, wanted, i as int).len(),
                matched <= i,
            decreases n - i,
        {
            let row = &self.rows[i];
            assert(self@.rows[i as int] == row@);
            if row.deleted_at.is_none() && name_matches(&row.name, &lowered) {
                matched = matched + 1;
            }
            i = i + 1;
        }
        if matched > 0x7fff_ffff_ffff_ffff {
            Err(database_error(StorageError::Other))
        } else {
            Ok(matched as i64)
        }
    }

    /// Stores a new sample with the content of `sample`, created by `user_id`
    /// at the instant `now`. It gets the next identifier and the initial
    /// version, and has no translations yet.
    ///
    /// The statement is refused where no identifier is left to hand out.
    pub fn create(&mut self, sample: &SampleRequest, user_id: String, now: i128) -> (r: Result<
        SampleDetail,
        ErrorResult,
    >)
        ensures
            old(self)@.wf() ==> final(self)@.wf(),
            match r {
                Ok(detail) => {
                    &&& old(self)@.next_id < i64::MAX
                    &&& final(self)@ == created(old(self)@, sample@, user_id@, now as int)
                    &&& detail@ == detail_of(
                        created_row(old(self)@.next_id, sample@, user_id@, now as int),
                        None,
                    )
                },
                Err(error) => {
                    &&& old(self)@.next_id >= i64::MAX
                    &&& final(self)@ == old(self)@
                    &&& error.wf()
                    &&& error@ == refused_view()
                },
            },
    {
        if self.next_id == i64::MAX {
            return Err(database_error(StorageError::Other));
        }
        let id = self.next_id;
        let ghost before = self@;
        let ghost key = (now as int, id as int);
        let mut k: usize = self.rows.len();
        assert(before.rows.take(k as int) =~= before.rows);
        while k > 0 && !self.rows[k - 1].sorts_before(now, id)
            invariant
                k <= self.rows@.len(),
                self@ == before,
                key == (now as int, id as int),
                insert_position(before.rows, key) == insert_position(
                    before.rows.take(k as int),
                    key,
                ),
            decreases k,
        {
            assert(before.rows.take(k as int).last() == self.rows@[k - 1]@);
            assert(before.rows.take(k as int).drop_last() =~= before.rows.take(k - 1));
            k = k - 1;
        }
        assert(insert_position(before.rows, key) == k) by {
            if k > 0 {
                assert(before.rows.take(k as int).last() == self.rows@[k - 1]@);
            }
        }
        let row = SampleRow {
            id,
            name: sample.name.clone(),
            description: copy_text(&sample.description),
            amount: sample.amount,
            version: INITIAL_VERSION,
            created_at: now,
            created_by: user_id.clone(),
            last_modified_at: now,
            last_modified_by: user_id,
            deleted_at: None,
            deleted_by: None,
            translations: Vec::new(),
        };
        assert(row@.translations =~= Seq::empty());
        let detail = SampleDetail {
            id,
            name: sample.name.clone(),
            description: copy_text(&sample.description),
            amount: sample.amount,
            version: INITIAL_VERSION,
            translations: None,
            created_at: now,
        };
        let ghost shown = row@;
        self.rows.insert(k, row);
        self.next_id = id + 1;
        proof {
            assert(rows_view(self.rows@) =~= before.rows.insert(k as int, shown));
            if before.wf() {
                lemma_created_wf(before, sample@, user_id@, now as int);
            }
        }
        Ok(detail)
    }

    /// Checks the condition of a write to the sample `id` at `version`, and
    /// gives the position of the row where the write may go ahead.
    fn writable(&self, id: i64, version: i16) -> (r: Result<usize, ErrorResult>)
        ensures
            match r {
                Ok(i) => write_error(self@.rows, id as int, version as int) is None && i == find(
                    self@.rows,
                    id as int,
                ) && i < self.rows@.len() && self.rows@[i as int].id == id
                    && self.rows@[i as int].version == version,
                Err(error) => error.wf() && write_error(self@.rows, id as int, version as int)
                    == Some(error@),
            },
    {
        match self.position(id) {
            Some(i) => {
                assert(self@.rows[i as int] == self.rows@[i as int]@);
                if self.rows[i].version != version {
                    Err(resource_error(ENTITY, id, Some(version), StorageError::RowNotFound))
                } else if version == i16::MAX {
                    Err(database_error(StorageError::Other))
                } else {
                    Ok(i)
                }
            },
            None => Err(resource_error(ENTITY, id, None, StorageError::RowNotFound)),
        }
    }

    /// Writes the content of `sample` to the sample `id`, on condition that it
    /// is stored at `version`; `user_id` and `now` are recorded as the last
    /// modification. The version is raised by one.
    ///
    /// Where no sample with that identifier is stored, it is reported as not
    /// found. Where one is stored at another version, a version conflict is
    /// reported that carries the submitted version. Nothing is written then.
    pub fn update(
        &mut self,
        id: i64,
        sample: &SampleRequest,
        version: i16,
        user_id: String,
        now: i128,
    ) -> (r: Result<SampleDetail, ErrorResult>)
        ensures
            old(self)@.wf() ==> final(self)@.wf(),
            match r {
                Ok(detail) => {
                    &&& write_error(old(self)@.rows, id as int, version as int) is None
                    &&& final(self)@ == updated(old(self)@, id as int, sample@, user_id@, now as int)
                    &&& detail@ == detail_of(
                        updated_row(
                            old(self)@.rows[find(old(self)@.rows, id as int)],
                            sample@,
                            user_id@,
                            now as int,
                        ),
                        None,
                    )
                    &&& detail@.version == version + 1
                },
                Err(error) => {
                    &&& write_error(old(self)@.rows, id as int, version as int) == Some(error@)
                    &&& final(self)@ == old(self)@
                    &&& error.wf()
                },
            },
    {
        let i = match self.writable(id, version) {
            Ok(i) => i,
            Err(error) => {
                return Err(error);
            },
        };
        let ghost before = self@;
        let old_row = &self.rows[i];
        assert(before.rows[i as int] == old_row@);
        let row = SampleRow {
            id: old_row.id,
            name: sample.name.clone(),
            description: copy_text(&sample.description),
            amount: sample.amount,
            version: version + 1,
            created_at: old_row.created_at,
            created_by: old_row.created_by.clone(),
            last_modified_at: now,
            last_modified_by: user_id,
            deleted_at: old_row.deleted_at,
            deleted_by: copy_text(&old_row.deleted_by),
            translations: copy_translations(&old_row.translations),
        };
        let detail = SampleDetail {
            id: old_row.id,
            name: sample.name.clone(),
            description: copy_text(&sample.description),
            amount: sample.amount,
            version: version + 1,
            translations: None,
            created_at: old_row.created_at,
        };
        let ghost shown = row@;
        assert(shown == updated_row(before.rows[i as int], sample@, user_id@, now as int));
        self.rows.set(i, row);
        proof {
            assert(rows_view(self.rows@) =~= before.rows.update(i as int, shown));
            if before.wf() {
                lemma_with_row_wf(before, id as int, shown);
            }
        }
        Ok(detail)
    }

    /// Marks the sample `id` as deleted by `user_id` at the instant `now`, on
    /// condition that it is stored at `version`. The version is raised by one.
    ///
    /// Where no sample with that identifier is stored, it is reported as not
    /// found. Where one is stored at another version, a version conflict is
    /// reported that carries the submitted version. Nothing is written then.
    pub fn delete(&mut self, id: i64, version: i16, user_id: String, now: i128) -> (r: Result<
        (),
        ErrorResult,
    >)
        ensures
            old(self)@.wf() ==> final(self)@.wf(),
            match r {
                Ok(_) => {
                    &&& write_error(old(self)@.rows, id as int, version as int) is None
                    &&& final(self)@ == deleted(old(self)@, id as int, user_id@, now as int)
                },
                Err(error) => {
                    &&& write_error(old(self)@.rows, id as int, version as int) == Some(error@)
                    &&& final(self)@ == old(self)@
                    &&& error.wf()
                },
            },
    {
        let i = match self.writable(id, version) {
            Ok(i) => i,
            Err(error) => {
                return Err(error);
            },
        };
        let ghost before = self@;
        let old_row = &self.rows[i];
        assert(before.rows[i as int] == old_row@);
        let row = SampleRow {
            id: old_row.id,
            name: old_row.name.clone(),
            description: copy_text(&old_row.description),
            amount: old_row.amount,
            version: version + 1,
            created_at: old_row.created_at,
            created_by: old_row.created_by.clone(),
            last_modified_at: old_row.last_modified_at,
            last_modified_by: old_row.last_modified_by.clone(),
            deleted_at: Some(now),
            deleted_by: Some(user_id),
            translations: copy_translations(&old_row.translations),
        };
        let ghost shown = row@;
        assert(shown == deleted_row(before.rows[i as int], user_id@, now as int));
        self.rows.set(i, row);
        proof {
            assert(rows_view(self.rows@) =~= before.rows.update(i as int, shown));
            if before.wf() {
                lemma_with_row_wf(before, id as int, shown);
            }
        }
        Ok(())
    }

    /// Puts `translations` in the place of the translations of the row at
    /// position `i`.
    fn set_translations(&mut self, i: usize, translations: Vec<SampleTranslation>)
        requires
            i < old(self).rows@.len(),
        ensures
            final(self)@ == (SampleRepositoryView {
                rows: old(self)@.rows.update(
                    i as int,
                    with_translations(old(self)@.rows[i as int], translations_view(translations@)),
                ),
                ..old(self)@
            }),
    {
        let ghost before = self@;
        let old_row = &self.rows[i];
        assert(before.rows[i as int] == old_row@);
        let row = SampleRow {
            id: old_row.id,
            name: old_row.name.clone(),
            description: copy_text(&old_row.description),
            amount: old_row.amount,
            version: old_row.version,
            created_at: old_row.created_at,
            created_by: old_row.created_by.clone(),
            last_modified_at: old_row.last_modified_at,
            last_modified_by: old_row.last_modified_by.clone(),
            deleted_at: old_row.deleted_at,
            deleted_by: copy_text(&old_row.deleted_by),
            translations,
        };
        let ghost shown = row@;
        self.rows.set(i, row);
        assert(rows_view(self.rows@) =~= before.rows.update(i as int, shown));
    }

    /// Stores `translations` for the sample `id`, behind those that it has, and
    /// gives them back as they were stored.
    ///
    /// The statement fails where there are translations to store but the sample
    /// is not stored, and where the sample would then have two translations in
    /// one language. Nothing is stored then.
    pub fn create_translations(&mut self, id: i64, translations: Vec<SampleTranslation>) -> (r:
        Result<Vec<SampleTranslation>, ErrorResult>)
        ensures
            old(self)@.wf() ==> final(self)@.wf(),
            match r {
                Ok(added) => {
                    &&& add_translations_error(
                        old(self)@.rows,
                        id as int,
                        translations_view(translations@),
                    ) is None
                    &&& final(self)@ == with_added_translations(
                        old(self)@,
                        id as int,
                        translations_view(translations@),
                    )
                    &&& translations_view(added@) == translations_view(translations@)
                },
                Err(error) => {
                    &&& add_translations_error(
                        old(self)@.rows,
                        id as int,
                        translations_view(translations@),
                    ) == Some(error@)
                    &&& final(self)@ == old(self)@
                    &&& error.wf()
                },
            },
    {
        let ghost before = self@;
        let ghost added = translations_view(translations@);
        match self.position(id) {
            Some(i) => {
                assert(before.rows[i as int] == self.rows@[i as int]@);
                let mut all = copy_translations(&self.rows[i].translations);
                let n = translations.len();
                let mut k: usize = 0;
                assert(added.take(0) =~= Seq::empty());
                assert(translations_view(all@) =~= before.rows[i as int].translations + added.take(
                    0,
                ));
                while k < n
                    invariant
                        k <= n,
                        n == translations@.len(),
                        added == translations_view(translations@),
                        translations_view(all@) == before.rows[i as int].translations + added.take(
                            k as int,
                        ),
                    decreases n - k,
                {
                    let ghost earlier = all@;
                    all.push(translations[k].copy());
                    assert(added[k as int] == translations@[k as int]@);
                    assert(translations_view(all@) =~= translations_view(earlier).push(
                        added[k as int],
                    ));
                    assert(translations_view(all@) =~= before.rows[i as int].translations
                        + added.take(k + 1));
                    k = k + 1;
                }
                assert(added.take(n as int) =~= added);
                if !languages_unique(&all) {
                    return Err(violation(ViolationKind::Unique));
                }
                self.set_translations(i, all);
                proof {
                    if before.wf() {
                        lemma_with_row_wf(
                            before,
                            id as int,
                            with_translations(
                                before.rows[i as int],
                                before.rows[i as int].translations + added,
                            ),
                        );
                    }
                }
                Ok(translations)
            },
            None => {
                if translations.len() > 0 {
                    Err(violation(ViolationKind::ForeignKey))
                } else {
                    Ok(translations)
                }
            },
        }
    }

    /// Reconciles the translations of the sample `id` with `translations`, the
    /// full set that is desired, and gives them back as they were stored.
    ///
    /// The stored translations whose language is not desired are deleted; every
    /// desired one is written over the stored one of its language, or added.
    /// The statement fails where there are desired translations but the sample
    /// is not stored, and where two of the desired ones are in one language.
    /// Nothing is changed then.
    pub fn update_translations(&mut self, id: i64, translations: Vec<SampleTranslation>) -> (r:
        Result<Vec<SampleTranslation>, ErrorResult>)
        ensures
            old(self)@.wf() ==> final(self)@.wf(),
            match r {
                Ok(written) => {
                    &&& reconcile_error(old(self)@.rows, id as int, translations_view(translations@))
                        is None
                    &&& final(self)@ == with_reconciled_translations(
                        old(self)@,
                        id as int,
                        translations_view(translations@),
                    )
                    &&& translations_view(written@) == translations_view(translations@)
                },
                Err(error) => {
                    &&& reconcile_error(old(self)@.rows, id as int, translations_view(translations@))
                        == Some(error@)
                    &&& final(self)@ == old(self)@
                    &&& error.wf()
                },
            },
    {
        let ghost before = self@;
        let ghost desired = translations_view(translations@);
        match self.position(id) {
            Some(i) => {
                assert(before.rows[i as int] == self.rows@[i as int]@);
                if !languages_unique(&translations) {
                    return Err(database_error(StorageError::Other));
                }
                let mut all = copy_translations(&self.rows[i].translations);
                reconcile(&mut all, &translations);
                self.set_translations(i, all);
                proof {
                    if before.wf() {
                        lemma_reconciled(before.rows[i as int].translations, desired);
                        lemma_with_row_wf(
                            before,
                            id as int,
                            with_translations(
                                before.rows[i as int],
                                reconciled(before.rows[i as int].translations, desired),
                            ),
                        );
                    }
                }
                Ok(translations)
            },
            None => {
                if translations.len() > 0 {
                    Err(violation(ViolationKind::ForeignKey))
                } else {
                    Ok(translations)
                }
            },
        }
    }

    /// The translations of the sample with identifier `id`, in the order in
    /// which they are stored; none where no such sample is stored.
    pub fn list_translations(&self, id: i64) -> (r: Result<Vec<SampleTranslation>, ErrorResult>)
        ensures
            r is Ok,
            translations_view(r->Ok_0@) == if stored(self@.rows, id as int) {
                self@.rows[find(self@.rows, id as int)].translations
            } else {
                Seq::empty()
            },
    {
        match self.position(id) {
            Some(i) => {
                assert(self@.rows[i as int] == self.rows@[i as int]@);
                Ok(copy_translations(&self.rows[i].translations))
            },
            None => {
                let none: Vec<SampleTranslation> = Vec::new();
                assert(translations_view(none@) =~= Seq::empty());
                Ok(none)
            },
        }
    }
}

} // verus!
