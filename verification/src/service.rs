//! The operations on samples: each is one or more statements of the
//! repository that take effect together or not at all.

use vstd::prelude::*;
use crate::error::text_view;
use crate::error::ErrorResult;
use crate::error::ErrorResultView;
use crate::keyset::cursor_after;
use crate::keyset::fetched;
use crate::keyset::lemma_seek_page_cursor;
use crate::keyset::row_key;
use crate::keyset::rows_behind;
use crate::keyset::seek_cursor;
use crate::keyset::seek_page;
use crate::model::list_key;
use crate::model::list_view;
use crate::model::SampleDetail;
use crate::model::SampleDetailView;
use crate::model::SampleList;
use crate::model::SampleRequest;
use crate::model::SampleRequestView;
use crate::model::SampleSeekFilter;
use crate::page::page_window;
use crate::page::Page;
use crate::page::PageRequest;
use crate::reconcile::has_language;
use crate::reconcile::language_position;
use crate::reconcile::lemma_reconciled;
use crate::reconcile::reconciled;
use crate::reconcile::unique_languages;
use crate::repository::created;
use crate::repository::created_row;
use crate::repository::deleted;
use crate::repository::detail_of;
use crate::repository::duplicate_view;
use crate::repository::find;
use crate::repository::lemma_created_found;
use crate::repository::lemma_find_from;
use crate::repository::conflict_view;
use crate::repository::lemma_update_raises_version;
use crate::repository::lemma_with_row_found;
use crate::repository::lemma_with_row_wf;
use crate::repository::with_translations;
use crate::repository::live;
use crate::repository::not_found_view;
use crate::repository::page_dataset;
use crate::repository::refused_view;
use crate::repository::seek_dataset;
use crate::repository::standing_translation;
use crate::repository::stored;
use crate::repository::updated;
use crate::repository::updated_row;
use crate::repository::with_added_translations;
use crate::repository::with_reconciled_translations;
use crate::repository::write_error;
use crate::repository::SampleRepository;
use crate::repository::SampleRepositoryView;
use crate::repository::SampleRowView;
use crate::seek::page_rows;
use crate::seek::Seek;
use crate::seek::SeekRequest;

verus! {

/// The operations on samples over one repository.
#[derive(Debug, Clone, PartialEq, Eq)]
pub struct SampleService {
    pub repository: SampleRepository,
}

/// Why a sample cannot be created, where it cannot: no identifier is left to
/// hand out; or two of its translations are in one language.
pub open spec fn create_error(state: SampleRepositoryView, request: SampleRequestView) -> Option<
    ErrorResultView,
> {
    if state.next_id >= i64::MAX {
        Some(refused_view())
    } else if !unique_languages(request.translations) {
        Some(duplicate_view())
    } else {
        None
    }
}

/// The repository after a sample has been created with its translations.
pub open spec fn created_with_translations(
    state: SampleRepositoryView,
    request: SampleRequestView,
    user: Seq<char>,
    now: int,
) -> SampleRepositoryView {
    with_added_translations(
        created(state, request, user, now),
        state.next_id,
        request.translations,
    )
}

/// Why the sample `id` cannot be updated at `version`, where it cannot: the
/// write to the sample itself fails; or two of the desired translations are in
/// one language.
pub open spec fn update_error(
    state: SampleRepositoryView,
    id: int,
    request: SampleRequestView,
    version: int,
) -> Option<ErrorResultView> {
    if write_error(state.rows, id, version) is Some {
        write_error(state.rows, id, version)
    } else if !unique_languages(request.translations) {
        Some(refused_view())
    } else {
        None
    }
}

/// The repository after the sample `id` has been updated and its translations
/// have been reconciled.
pub open spec fn updated_with_translations(
    state: SampleRepositoryView,
    id: int,
    request: SampleRequestView,
    user: Seq<char>,
    now: int,
) -> SampleRepositoryView {
    with_reconciled_translations(updated(state, id, request, user, now), id, request.translations)
}

/// A sample in full as an answer shows it: with the list of its translations
/// unless it is shown in translation.
pub open spec fn answer_of(row: SampleRowView, translate: bool, language: Option<Seq<char>>)
    -> SampleDetailView {
    SampleDetailView {
        translations: if translate {
            None
        } else {
            Some(row.translations)
        },
        ..detail_of(row, standing_translation(row, translate, language))
    }
}

/// Whether `r` is the answer to a seek over the repository `state`.
///
/// The answer holds the page that the request selects from the listing and the
/// cursor behind it, with creation instant and identifier present together or
/// not at all. For a well-formed request the page holds at most `size` rows;
/// where more than `size` rows of the listing are behind the cursor of the
/// request, the page is full and the cursor of the answer is the key of its last
/// row; otherwise the answer has no cursor. A negative limit is refused.
pub open spec fn seek_answers(
    state: SampleRepositoryView,
    language: Option<Seq<char>>,
    query: Option<Seq<char>>,
    request: SeekRequest,
    r: Result<Seek<SampleList>, ErrorResult>,
) -> bool {
    let dataset = seek_dataset(state.rows, language, query);
    let got = fetched(dataset, list_key(), request.cursor(), request.limit as int);
    match r {
        Ok(page) => {
            &&& request.limit >= 0
            &&& page.size == request.size
            &&& list_view(page.data@) == page_rows(got, request.size as int)
            &&& page.cursor() == cursor_after(got, list_key(), request.size as int)
            &&& page.created_at is Some <==> page.id is Some
            &&& request.wf() ==> {
                &&& list_view(page.data@) == seek_page(
                    dataset,
                    list_key(),
                    request.cursor(),
                    request.size as int,
                )
                &&& page.cursor() == seek_cursor(
                    dataset,
                    list_key(),
                    request.cursor(),
                    request.size as int,
                )
                &&& page.data@.len() <= request.size
                &&& rows_behind(dataset, list_key(), request.cursor()).len() > request.size ==> {
                    &&& page.data@.len() == request.size
                    &&& page.cursor() == Some(list_key()(list_view(page.data@).last()))
                }
                &&& rows_behind(dataset, list_key(), request.cursor()).len() <= request.size ==> {
                    &&& page.created_at is None
                    &&& page.id is None
                }
            }
        },
        Err(error) => request.limit < 0 && error.wf() && error@ == refused_view(),
    }
}

/// Whether `r` is the answer to a page request over the repository `state`.
///
/// The answer holds the window that the request selects from the listing, the
/// page and the size of the request, and as the total the number of all rows of
/// the listing, whatever the page. A negative size or offset is refused, and so
/// is a total that cannot be represented.
pub open spec fn page_answers(
    state: SampleRepositoryView,
    query: Option<Seq<char>>,
    request: PageRequest,
    r: Result<Page<SampleList>, ErrorResult>,
) -> bool {
    let dataset = page_dataset(state.rows, query);
    match r {
        Ok(page) => {
            &&& request.size >= 0
            &&& request.offset >= 0
            &&& dataset.len() <= i64::MAX
            &&& list_view(page.data@) == page_window(
                dataset,
                request.offset as int,
                request.size as int,
            )
            &&& page.page == request.page
            &&& page.size == request.size
            &&& page.total == dataset.len()
        },
        Err(error) => {
            &&& request.size < 0 || request.offset < 0 || dataset.len() > i64::MAX
            &&& error.wf()
            &&& error@ == refused_view()
        },
    }
}

/// Whether `r` is the answer to a read of the sample `id` from the repository
/// `state`: the sample as [`answer_of`] shows it where it is stored and not
/// deleted, and the report that it was not found otherwise.
pub open spec fn get_answers(
    state: SampleRepositoryView,
    id: int,
    translate: bool,
    language: Option<Seq<char>>,
    r: Result<SampleDetail, ErrorResult>,
) -> bool {
    match r {
        Ok(detail) => live(state.rows, id) && detail@ == answer_of(
            state.rows[find(state.rows, id)],
            translate,
            language,
        ),
        Err(error) => !live(state.rows, id) && error.wf() && error@ == not_found_view(id),
    }
}

/// Whether `r` is the answer to the creation of a sample that takes the
/// repository from `before` to `after`.
///
/// Where nothing stands against the creation, the sample and its translations
/// are stored and the answer shows the new sample at its initial version with
/// the translations. Otherwise the answer is the failure and nothing is stored.
pub open spec fn create_answers(
    before: SampleRepositoryView,
    after: SampleRepositoryView,
    request: SampleRequestView,
    user: Seq<char>,
    now: int,
    r: Result<SampleDetail, ErrorResult>,
) -> bool {
    match r {
        Ok(detail) => {
            &&& create_error(before, request) is None
            &&& after == created_with_translations(before, request, user, now)
            &&& detail@ == (SampleDetailView {
                translations: Some(request.translations),
                ..detail_of(created_row(before.next_id, request, user, now), None)
            })
        },
        Err(error) => {
            &&& create_error(before, request) == Some(error@)
            &&& after == before
            &&& error.wf()
        },
    }
}

/// Whether `r` is the answer to an update of the sample `id` at `version` that
/// takes the repository from `before` to `after`.
///
/// Where nothing stands against the update, the sample is written, its
/// translations are reconciled, and the answer shows the sample one version
/// higher with the desired translations. Otherwise the answer is the failure
/// and nothing is written.
pub open spec fn update_answers(
    before: SampleRepositoryView,
    after: SampleRepositoryView,
    id: int,
    request: SampleRequestView,
    version: int,
    user: Seq<char>,
    now: int,
    r: Result<SampleDetail, ErrorResult>,
) -> bool {
    match r {
        Ok(detail) => {
            &&& update_error(before, id, request, version) is None
            &&& after == updated_with_translations(before, id, request, user, now)
            &&& detail@ == (SampleDetailView {
                translations: Some(request.translations),
                ..detail_of(
                    updated_row(before.rows[find(before.rows, id)], request, user, now),
                    None,
                )
            })
            &&& detail@.version == version + 1
        },
        Err(error) => {
            &&& update_error(before, id, request, version) == Some(error@)
            &&& after == before
            &&& error.wf()
        },
    }
}

/// Whether `r` is the answer to the deletion of the sample `id` at `version`
/// that takes the repository from `before` to `after`.
pub open spec fn delete_answers(
    before: SampleRepositoryView,
    after: SampleRepositoryView,
    id: int,
    version: int,
    user: Seq<char>,
    now: int,
    r: Result<(), ErrorResult>,
) -> bool {
    match r {
        Ok(_) => {
            &&& write_error(before.rows, id, version) is None
            &&& after == deleted(before, id, user, now)
        },
        Err(error) => {
            &&& write_error(before.rows, id, version) == Some(error@)
            &&& after == before
            &&& error.wf()
        },
    }
}

/// An update at the stored version goes ahead and raises the version by exactly
/// one, and the same update repeated with the version from before, now stale,
/// fails with a version conflict that carries that version, whatever it asks
/// to write; so does a deletion with that version.
pub proof fn lemma_update_then_stale(
    state: SampleRepositoryView,
    id: int,
    request: SampleRequestView,
    version: int,
    user: Seq<char>,
    now: int,
    again: SampleRequestView,
)
    requires
        update_error(state, id, request, version) is None,
    ensures
        stored(updated_with_translations(state, id, request, user, now).rows, id),
        updated_with_translations(state, id, request, user, now).rows[find(
            updated_with_translations(state, id, request, user, now).rows,
            id,
        )].version == version + 1,
        update_error(updated_with_translations(state, id, request, user, now), id, again, version)
            == Some(conflict_view(id, version)),
        write_error(updated_with_translations(state, id, request, user, now).rows, id, version)
            == Some(conflict_view(id, version)),
{
    let written = updated(state, id, request, user, now);
    lemma_update_raises_version(state, id, request, version, user, now);
    lemma_find_from(written.rows, id, 0);
    lemma_with_row_found(
        written,
        id,
        with_translations(
            written.rows[find(written.rows, id)],
            reconciled(written.rows[find(written.rows, id)].translations, request.translations),
        ),
    );
}

/// An update reconciles the translations of the sample with the desired set:
/// afterwards the sample has a translation in a language exactly when the
/// request has one, so that exactly the languages absent from the request are
/// gone; every translation of the request is stored under its language with
/// the content of the request; and no language is stored twice.
pub proof fn lemma_update_reconciles(
    state: SampleRepositoryView,
    id: int,
    request: SampleRequestView,
    version: int,
    user: Seq<char>,
    now: int,
)
    requires
        state.wf(),
        update_error(state, id, request, version) is None,
    ensures
        ({
            let after = updated_with_translations(state, id, request, user, now);
            let translations = after.rows[find(after.rows, id)].translations;
            &&& stored(after.rows, id)
            &&& translations == reconciled(
                state.rows[find(state.rows, id)].translations,
                request.translations,
            )
            &&& unique_languages(translations)
            &&& forall|language: Seq<char>| #[trigger]
                has_language(translations, language) <==> has_language(
                    request.translations,
                    language,
                )
            &&& forall|i: int|
                0 <= i < request.translations.len() ==> translations[language_position(
                    translations,
                    (#[trigger] request.translations[i]).language,
                )] == request.translations[i]
        }),
{
    let written = updated(state, id, request, user, now);
    lemma_find_from(state.rows, id, 0);
    lemma_update_raises_version(state, id, request, version, user, now);
    lemma_with_row_found(
        state,
        id,
        updated_row(state.rows[find(state.rows, id)], request, user, now),
    );
    lemma_with_row_found(
        written,
        id,
        with_translations(
            written.rows[find(written.rows, id)],
            reconciled(written.rows[find(written.rows, id)].translations, request.translations),
        ),
    );
    lemma_reconciled(state.rows[find(state.rows, id)].translations, request.translations);
}

/// A page of values shows the same rows as the page of what the values stand for.
pub proof fn lemma_page_rows_view(rows: Seq<SampleList>, size: int)
    ensures
        list_view(page_rows(rows, size)) == page_rows(list_view(rows), size),
        cursor_after(rows, row_key::<SampleList>(), size) == cursor_after(
            list_view(rows),
            list_key(),
            size,
        ),
{
    assert(list_view(page_rows(rows, size)) =~= page_rows(list_view(rows), size));
}

impl SampleService {
    /// The service is well formed when its repository is.
    pub open spec fn wf(&self) -> bool {
        self.repository@.wf()
    }

    /// A service over a repository that holds no sample.
    pub fn new() -> (r: SampleService)
        ensures
            r.wf(),
            r.repository@.rows.len() == 0,
            r.repository@.next_id == 1,
    {
        SampleService { repository: SampleRepository::new() }
    }

    /// One page of the keyset-paginated listing of samples.
    ///
    /// The listing holds the samples that are not deleted and pass the filter,
    /// newest first. The page holds the first `size` of those behind the cursor
    /// of the request. Where more than `size` are behind it, the answer carries
    /// the key of the last row of the page as the cursor for the next page;
    /// otherwise it carries none.
    pub fn seek(&self, filter: &SampleSeekFilter, seek_request: &SeekRequest) -> (r: Result<
        Seek<SampleList>,
        ErrorResult,
    >)
        ensures
            seek_answers(
                self.repository@,
                text_view(filter.language),
                text_view(filter.query),
                *seek_request,
                r,
            ),
    {
        let list = match self.repository.seek(filter, seek_request) {
            Ok(list) => list,
            Err(error) => {
                return Err(error);
            },
        };
        proof {
            lemma_page_rows_view(list@, seek_request.size as int);
            if seek_request.wf() {
                lemma_seek_page_cursor(
                    seek_dataset(
                        self.repository@.rows,
                        text_view(filter.language),
                        text_view(filter.query),
                    ),
                    list_key(),
                    seek_request.cursor(),
                    seek_request.size as int,
                );
            }
        }
        Ok(Seek::new(list, seek_request))
    }

    /// One page of the offset-paginated listing of samples, with the number of
    /// all samples that the listing holds.
    ///
    /// The listing holds the samples that are not deleted and whose name passes
    /// the text filter, newest first. The total does not depend on the page.
    pub fn page(&self, query: &Option<String>, page_request: &PageRequest) -> (r: Result<
        Page<SampleList>,
        ErrorResult,
    >)
        ensures
            page_answers(self.repository@, text_view(*query), *page_request, r),
    {
        let list = match self.repository.page(query, page_request) {
            Ok(list) => list,
            Err(error) => {
                return Err(error);
            },
        };
        let count = match self.repository.count(query) {
            Ok(count) => count,
            Err(error) => {
                return Err(error);
            },
        };
        Ok(Page::new(list, count, page_request))
    }

    /// Creates a sample with its translations, by `user_id` at the instant `now`.
    ///
    /// The sample and its translations are stored together or not at all. The
    /// request is taken as it is: that no two translations share a language or
    /// an ordinal is checked where the request is accepted, in [`crate::api`].
    /// Here two translations in one language come to the failure of the store.
    pub fn create(&mut self, request: SampleRequest, user_id: String, now: i128) -> (r: Result<
        SampleDetail,
        ErrorResult,
    >)
        requires
            old(self).wf(),
        ensures
            final(self).wf(),
            create_answers(
                old(self).repository@,
                final(self).repository@,
                request@,
                user_id@,
                now as int,
                r,
            ),
    {
        let ghost before = self.repository@;
        let mut tx = self.repository.snapshot();
        let mut sample = match tx.create(&request, user_id, now) {
            Ok(sample) => sample,
            Err(error) => {
                return Err(error);
            },
        };
        proof {
            lemma_created_found(before, request@, user_id@, now as int);
            assert(Seq::<crate::model::SampleTranslationView>::empty() + request@.translations
                =~= request@.translations);
        }
        let translations = match tx.create_translations(sample.id, request.translations) {
            Ok(translations) => translations,
            Err(error) => {
                return Err(error);
            },
        };
        sample.translations = Some(translations);
        self.repository = tx;
        Ok(sample)
    }

    /// Reads the sample with identifier `id`.
    ///
    /// Where `translate` is set, name and description are those of the
    /// translation that stands for the sample in `language`, and the answer
    /// does not list the translations. Otherwise the answer shows the sample's
    /// own name and description and lists all its translations.
    pub fn get(&self, id: i64, translate: bool, language: &Option<String>) -> (r: Result<
        SampleDetail,
        ErrorResult,
    >)
        ensures
            get_answers(self.repository@, id as int, translate, text_view(*language), r),
    {
        if translate {
            return self.repository.get(id, translate, language);
        }
        let mut sample = match self.repository.get(id, translate, language) {
            Ok(sample) => sample,
            Err(error) => {
                return Err(error);
            },
        };
        let translations = match self.repository.list_translations(id) {
            Ok(translations) => translations,
            Err(error) => {
                return Err(error);
            },
        };
        sample.translations = Some(translations);
        Ok(sample)
    }

    /// Updates the sample `id` with the content of `request` and reconciles its
    /// translations with those of the request, on condition that the sample is
    /// stored at `version`.
    ///
    /// The sample and its translations are written together or not at all. The
    /// request is taken as it is: that no two translations share a language or
    /// an ordinal is checked where the request is accepted, in [`crate::api`].
    /// Here two translations in one language come to the failure of the store.
    pub fn update(
        &mut self,
        id: i64,
        request: SampleRequest,
        version: i16,
        user_id: String,
        now: i128,
    ) -> (r: Result<SampleDetail, ErrorResult>)
        requires
            old(self).wf(),
        ensures
            final(self).wf(),
            update_answers(
                old(self).repository@,
                final(self).repository@,
                id as int,
                request@,
                version as int,
                user_id@,
                now as int,
                r,
            ),
    {
        let ghost before = self.repository@;
        let mut tx = self.repository.snapshot();
        let mut sample = match tx.update(id, &request, version, user_id, now) {
            Ok(sample) => sample,
            Err(error) => {
                return Err(error);
            },
        };
        proof {
            lemma_find_from(before.rows, id as int, 0);
            lemma_with_row_wf(
                before,
                id as int,
                updated_row(before.rows[find(before.rows, id as int)], request@, user_id@, now as int),
            );
        }
        let translations = match tx.update_translations(id, request.translations) {
            Ok(translations) => translations,
            Err(error) => {
                return Err(error);
            },
        };
        sample.translations = Some(translations);
        self.repository = tx;
        Ok(sample)
    }

    /// Deletes the sample `id` by `user_id` at the instant `now`, on condition
    /// that it is stored at `version`. The sample stays stored and is left out
    /// of all reads from then on.
    pub fn delete(&mut self, id: i64, version: i16, user_id: String, now: i128) -> (r: Result<
        (),
        ErrorResult,
    >)
        requires
            old(self).wf(),
        ensures
            final(self).wf(),
            delete_answers(
                old(self).repository@,
                final(self).repository@,
                id as int,
                version as int,
                user_id@,
                now as int,
                r,
            ),
    {
        self.repository.delete(id, version, user_id, now)
    }
}

} // verus!
