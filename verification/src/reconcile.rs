//! Reconciliation of the translations of one sample: the stored set is made to
//! match the desired set, language by language.
//!
//! Stored translations whose language is not desired are deleted. Then every
//! desired translation is written: over the stored one of its language where
//! there is one, as a new one otherwise.

use vstd::prelude::*;
use crate::model::translations_view;
use crate::model::SampleTranslation;
use crate::model::SampleTranslationView;

verus! {

/// Whether no language occurs twice among `translations`.
pub open spec fn unique_languages(translations: Seq<SampleTranslationView>) -> bool {
    forall|i: int, j: int|
        0 <= i < j < translations.len() ==> (#[trigger] translations[i]).language
            != (#[trigger] translations[j]).language
}

/// The first position at or behind `from` of a translation in `language`; the
/// number of translations where there is none.
pub open spec fn language_position_from(
    translations: Seq<SampleTranslationView>,
    language: Seq<char>,
    from: int,
) -> int
    decreases translations.len() - from,
{
    if from < 0 || from >= translations.len() {
        translations.len() as int
    } else if translations[from].language == language {
        from
    } else {
        language_position_from(translations, language, from + 1)
    }
}

/// The position of the first translation in `language`; the number of
/// translations where there is none.
pub open spec fn language_position(translations: Seq<SampleTranslationView>, language: Seq<char>)
    -> int {
    language_position_from(translations, language, 0)
}

/// Whether one of `translations` is in `language`.
pub open spec fn has_language(translations: Seq<SampleTranslationView>, language: Seq<char>)
    -> bool {
    language_position(translations, language) < translations.len()
}

/// Of the first `n` stored translations, those whose language is desired.
pub open spec fn kept_upto(
    stored: Seq<SampleTranslationView>,
    desired: Seq<SampleTranslationView>,
    n: int,
) -> Seq<SampleTranslationView>
    decreases n,
{
    if n <= 0 {
        Seq::empty()
    } else if has_language(desired, stored[n - 1].language) {
        kept_upto(stored, desired, n - 1).push(stored[n - 1])
    } else {
        kept_upto(stored, desired, n - 1)
    }
}

/// The stored translations that stay: those whose language is desired.
pub open spec fn kept(stored: Seq<SampleTranslationView>, desired: Seq<SampleTranslationView>)
    -> Seq<SampleTranslationView> {
    kept_upto(stored, desired, stored.len() as int)
}

/// The stored translations after `translation` is written: it takes the place
/// of the stored one of its language, or is added behind the others.
pub open spec fn upserted(stored: Seq<SampleTranslationView>, translation: SampleTranslationView)
    -> Seq<SampleTranslationView> {
    if has_language(stored, translation.language) {
        stored.update(language_position(stored, translation.language), translation)
    } else {
        stored.push(translation)
    }
}

/// The stored translations after the first `n` desired ones are written, one
/// after the other.
pub open spec fn upserted_upto(
    stored: Seq<SampleTranslationView>,
    desired: Seq<SampleTranslationView>,
    n: int,
) -> Seq<SampleTranslationView>
    decreases n,
{
    if n <= 0 {
        stored
    } else {
        upserted(upserted_upto(stored, desired, n - 1), desired[n - 1])
    }
}

/// The stored translations after reconciliation with the desired ones.
pub open spec fn reconciled(stored: Seq<SampleTranslationView>, desired: Seq<SampleTranslationView>)
    -> Seq<SampleTranslationView> {
    upserted_upto(kept(stored, desired), desired, desired.len() as int)
}

/// The position of a language lies among the translations, the translation at
/// it is in that language, and none before it is.
pub proof fn lemma_language_position_from(
    translations: Seq<SampleTranslationView>,
    language: Seq<char>,
    from: int,
)
    requires
        0 <= from <= translations.len(),
    ensures
        from <= language_position_from(translations, language, from) <= translations.len(),
        language_position_from(translations, language, from) < translations.len()
            ==> translations[language_position_from(translations, language, from)].language
            == language,
        forall|k: int|
            from <= k < language_position_from(translations, language, from) ==> (
            #[trigger] translations[k]).language != language,
    decreases translations.len() - from,
{
    if from < translations.len() && translations[from].language != language {
        lemma_language_position_from(translations, language, from + 1);
    }
}

/// A language is among the translations exactly when one of them is in it.
pub proof fn lemma_has_language(translations: Seq<SampleTranslationView>, language: Seq<char>)
    ensures
        has_language(translations, language) <==> exists|i: int|
            0 <= i < translations.len() && (#[trigger] translations[i]).language == language,
        has_language(translations, language) ==> {
            &&& 0 <= language_position(translations, language) < translations.len()
            &&& translations[language_position(translations, language)].language == language
        },
{
    lemma_language_position_from(translations, language, 0);
    if !has_language(translations, language) {
        assert forall|i: int| 0 <= i < translations.len() implies (
        #[trigger] translations[i]).language != language by {}
    } else {
        let p = language_position(translations, language);
        assert(translations[p].language == language);
    }
}

/// Among translations of which no two share a language, the position of the
/// language of each is its own position.
pub proof fn lemma_own_position(translations: Seq<SampleTranslationView>, i: int)
    requires
        unique_languages(translations),
        0 <= i < translations.len(),
    ensures
        language_position(translations, translations[i].language) == i,
{
    lemma_language_position_from(translations, translations[i].language, 0);
    let p = language_position(translations, translations[i].language);
    if p < i {
        assert(translations[p].language != translations[i].language);
    }
}

/// What stays of the stored translations: each is a stored one whose language
/// is desired, they keep their order, and every such stored one stays.
pub proof fn lemma_kept_upto(
    stored: Seq<SampleTranslationView>,
    desired: Seq<SampleTranslationView>,
    n: int,
)
    requires
        unique_languages(stored),
        0 <= n <= stored.len(),
    ensures
        unique_languages(kept_upto(stored, desired, n)),
        forall|k: int|
            0 <= k < kept_upto(stored, desired, n).len() ==> has_language(
                desired,
                (#[trigger] kept_upto(stored, desired, n)[k]).language,
            ) && exists|i: int| 0 <= i < n && stored[i] == kept_upto(stored, desired, n)[k],
        forall|i: int|
            0 <= i < n && has_language(desired, (#[trigger] stored[i]).language) ==> has_language(
                kept_upto(stored, desired, n),
                stored[i].language,
            ),
    decreases n,
{
    if n > 0 {
        lemma_kept_upto(stored, desired, n - 1);
        let before = kept_upto(stored, desired, n - 1);
        let now = kept_upto(stored, desired, n);
        let last = stored[n - 1];
        if has_language(desired, last.language) {
            assert forall|i: int, j: int| 0 <= i < j < now.len() implies (#[trigger] now[i]).language
                != (#[trigger] now[j]).language by {
                if j == now.len() - 1 {
                    assert(now[i] == before[i]);
                    let w = choose|w: int| 0 <= w < n - 1 && stored[w] == before[i];
                    assert(stored[w].language != stored[n - 1].language);
                } else {
                    assert(now[i] == before[i] && now[j] == before[j]);
                }
            }
            assert forall|k: int| 0 <= k < now.len() implies has_language(
                desired,
                (#[trigger] now[k]).language,
            ) && exists|i: int| 0 <= i < n && stored[i] == now[k] by {
                if k < before.len() {
                    assert(now[k] == before[k]);
                    let w = choose|w: int| 0 <= w < n - 1 && stored[w] == before[k];
                    assert(stored[w] == now[k]);
                } else {
                    assert(stored[n - 1] == now[k]);
                }
            }
            assert forall|i: int|
                0 <= i < n && has_language(desired, (#[trigger] stored[i]).language) implies has_language(
                now,
                stored[i].language,
            ) by {
                lemma_has_language(now, stored[i].language);
                if i < n - 1 {
                    lemma_has_language(before, stored[i].language);
                    let w = choose|w: int|
                        0 <= w < before.len() && (#[trigger] before[w]).language
                            == stored[i].language;
                    assert(now[w] == before[w]);
                } else {
                    assert(now[now.len() - 1] == last);
                }
            }
        } else {
            assert forall|k: int| 0 <= k < now.len() implies has_language(
                desired,
                (#[trigger] now[k]).language,
            ) && exists|i: int| 0 <= i < n && stored[i] == now[k] by {
                let w = choose|w: int| 0 <= w < n - 1 && stored[w] == before[k];
                assert(stored[w] == now[k]);
            }
        }
    }
}

/// Writing one translation keeps the languages apart and stores the
/// translation itself under its language.
pub proof fn lemma_upserted(stored: Seq<SampleTranslationView>, translation: SampleTranslationView)
    requires
        unique_languages(stored),
    ensures
        unique_languages(upserted(stored, translation)),
        has_language(upserted(stored, translation), translation.language),
        upserted(stored, translation)[language_position(
            upserted(stored, translation),
            translation.language,
        )] == translation,
{
    let after = upserted(stored, translation);
    lemma_has_language(stored, translation.language);
    let p = language_position(stored, translation.language);
    assert forall|i: int, j: int| 0 <= i < j < after.len() implies (#[trigger] after[i]).language
        != (#[trigger] after[j]).language by {
        if has_language(stored, translation.language) {
            assert(stored[i].language != stored[j].language);
            assert(after[i].language == stored[i].language);
            assert(after[j].language == stored[j].language);
        } else {
            if j == after.len() - 1 {
                assert(after[i] == stored[i]);
                assert(stored[i].language != translation.language);
            } else {
                assert(after[i] == stored[i] && after[j] == stored[j]);
            }
        }
    }
    let q = if has_language(stored, translation.language) {
        p
    } else {
        stored.len() as int
    };
    assert(after[q] == translation);
    lemma_has_language(after, translation.language);
    lemma_own_position(after, q);
}

/// Writing one translation leaves every other language as it was: it is
/// stored afterwards exactly when it was stored before, with the same content.
pub proof fn lemma_upserted_other(
    stored: Seq<SampleTranslationView>,
    translation: SampleTranslationView,
    language: Seq<char>,
)
    requires
        unique_languages(stored),
        language != translation.language,
    ensures
        has_language(upserted(stored, translation), language) == has_language(stored, language),
        has_language(stored, language) ==> upserted(stored, translation)[language_position(
            upserted(stored, translation),
            language,
        )] == stored[language_position(stored, language)],
{
    let after = upserted(stored, translation);
    lemma_upserted(stored, translation);
    lemma_has_language(stored, translation.language);
    lemma_has_language(stored, language);
    lemma_has_language(after, language);
    if has_language(stored, language) {
        let w = language_position(stored, language);
        assert(after[w] == stored[w]);
        assert(after[w].language == language);
        lemma_own_position(after, w);
    }
    if has_language(after, language) {
        let w = language_position(after, language);
        assert(w < stored.len());
        assert(after[w] == stored[w]);
        assert(stored[w].language == language);
    }
}

/// What is stored after the first `n` desired translations are written: the
/// languages stay apart; each of the `n` is stored under its language; and the
/// stored languages are those from before and those of the `n`.
pub proof fn lemma_upserted_upto(
    stored: Seq<SampleTranslationView>,
    desired: Seq<SampleTranslationView>,
    n: int,
)
    requires
        unique_languages(stored),
        unique_languages(desired),
        0 <= n <= desired.len(),
    ensures
        unique_languages(upserted_upto(stored, desired, n)),
        forall|i: int|
            0 <= i < n ==> has_language(
                upserted_upto(stored, desired, n),
                (#[trigger] desired[i]).language,
            ) && upserted_upto(stored, desired, n)[language_position(
                upserted_upto(stored, desired, n),
                desired[i].language,
            )] == desired[i],
        forall|language: Seq<char>| #[trigger]
            has_language(upserted_upto(stored, desired, n), language) <==> (has_language(
                stored,
                language,
            ) || exists|i: int| 0 <= i < n && (#[trigger] desired[i]).language == language),
    decreases n,
{
    if n > 0 {
        lemma_upserted_upto(stored, desired, n - 1);
        let before = upserted_upto(stored, desired, n - 1);
        let now = upserted_upto(stored, desired, n);
        let last = desired[n - 1];
        lemma_upserted(before, last);
        assert forall|i: int| 0 <= i < n implies has_language(now, (#[trigger] desired[i]).language)
            && now[language_position(now, desired[i].language)] == desired[i] by {
            if i < n - 1 {
                assert(desired[i].language != desired[n - 1].language);
                lemma_upserted_other(before, last, desired[i].language);
            }
        }
        assert forall|language: Seq<char>| #[trigger]
            has_language(now, language) <==> (has_language(stored, language) || exists|i: int|
                0 <= i < n && (#[trigger] desired[i]).language == language) by {
            if language == last.language {
                assert(desired[n - 1].language == language);
            } else {
                lemma_upserted_other(before, last, language);
                if exists|i: int| 0 <= i < n && (#[trigger] desired[i]).language == language {
                    let w = choose|w: int| 0 <= w < n && (#[trigger] desired[w]).language == language;
                    assert(w < n - 1);
                }
            }
        }
    }
}

/// Reconciling the translations of a sample makes the stored set match the
/// desired one: afterwards a language is stored exactly when it is desired, so
/// that exactly the languages absent from the desired set are gone; every
/// desired translation is stored under its language with its new content; and
/// no language is stored twice.
pub proof fn lemma_reconciled(stored: Seq<SampleTranslationView>, desired: Seq<SampleTranslationView>)
    requires
        unique_languages(stored),
        unique_languages(desired),
    ensures
        unique_languages(reconciled(stored, desired)),
        forall|language: Seq<char>| #[trigger]
            has_language(reconciled(stored, desired), language) <==> has_language(desired, language),
        forall|i: int|
            0 <= i < desired.len() ==> reconciled(stored, desired)[language_position(
                reconciled(stored, desired),
                (#[trigger] desired[i]).language,
            )] == desired[i],
{
    lemma_kept_upto(stored, desired, stored.len() as int);
    let staying = kept(stored, desired);
    lemma_upserted_upto(staying, desired, desired.len() as int);
    let after = reconciled(stored, desired);
    assert forall|language: Seq<char>| #[trigger]
        has_language(after, language) <==> has_language(desired, language) by {
        lemma_has_language(desired, language);
        lemma_has_language(staying, language);
        if has_language(staying, language) {
            let w = choose|w: int|
                0 <= w < staying.len() && (#[trigger] staying[w]).language == language;
            assert(has_language(desired, staying[w].language));
        }
    }
}

/// The position of the first of `translations` in `language`; their number
/// where there is none.
pub fn position_of_language(translations: &Vec<SampleTranslation>, language: &String) -> (r: usize)
    ensures
        r == language_position(translations_view(translations@), language@),
        r <= translations@.len(),
{
    let n = translations.len();
    let mut i: usize = 0;
    while i < n
        invariant
            i <= n,
            n == translations@.len(),
            language_position(translations_view(translations@), language@)
                == language_position_from(translations_view(translations@), language@, i as int),
        decreases n - i,
    {
        assert(translations_view(translations@)[i as int] == translations@[i as int]@);
        if translations[i].language == *language {
            return i;
        }
        i = i + 1;
    }
    n
}

/// Whether no language occurs twice among `translations`.
pub fn languages_unique(translations: &Vec<SampleTranslation>) -> (r: bool)
    ensures
        r == unique_languages(translations_view(translations@)),
{
    let n = translations.len();
    let mut j: usize = 0;
    let ghost views = translations_view(translations@);
    while j < n
        invariant
            j <= n,
            n == translations@.len(),
            views == translations_view(translations@),
            forall|a: int, b: int|
                0 <= a < b < j ==> (#[trigger] views[a]).language != (#[trigger] views[b]).language,
        decreases n - j,
    {
        let p = position_of_language(translations, &translations[j].language);
        proof {
            assert(views[j as int] == translations@[j as int]@);
            lemma_language_position_from(views, views[j as int].language, 0);
        }
        if p < j {
            assert(views[p as int].language == views[j as int].language);
            return false;
        }
        j = j + 1;
    }
    true
}

/// Makes the stored translations of a sample match the desired ones: deletes
/// the stored ones whose language is not desired, then writes every desired one
/// over the stored one of its language, or adds it where there is none.
pub fn reconcile(stored: &mut Vec<SampleTranslation>, desired: &Vec<SampleTranslation>)
    ensures
        translations_view(final(stored)@) == reconciled(
            translations_view(old(stored)@),
            translations_view(desired@),
        ),
{
    let ghost before = translations_view(stored@);
    let ghost wanted = translations_view(desired@);
    let mut staying: Vec<SampleTranslation> = Vec::new();
    let n = stored.len();
    let mut i: usize = 0;
    assert(translations_view(staying@) =~= Seq::empty());
    while i < n
        invariant
            i <= n,
            n == stored@.len(),
            before == translations_view(stored@),
            wanted == translations_view(desired@),
            translations_view(staying@) == kept_upto(before, wanted, i as int),
        decreases n - i,
    {
        assert(before[i as int] == stored@[i as int]@);
        if position_of_language(desired, &stored[i].language) < desired.len() {
            let ghost earlier = staying@;
            staying.push(stored[i].copy());
            assert(translations_view(staying@) =~= translations_view(earlier).push(
                before[i as int],
            ));
        }
        i = i + 1;
    }
    let m = desired.len();
    let mut j: usize = 0;
    while j < m
        invariant
            j <= m,
            m == desired@.len(),
            wanted == translations_view(desired@),
            translations_view(staying@) == upserted_upto(
                kept(before, wanted),
                wanted,
                j as int,
            ),
        decreases m - j,
    {
        assert(wanted[j as int] == desired@[j as int]@);
        let ghost earlier = staying@;
        let p = position_of_language(&staying, &desired[j].language);
        if p < staying.len() {
            staying.set(p, desired[j].copy());
            assert(translations_view(staying@) =~= translations_view(earlier).update(
                p as int,
                wanted[j as int],
            ));
        } else {
            staying.push(desired[j].copy());
            assert(translations_view(staying@) =~= translations_view(earlier).push(
                wanted[j as int],
            ));
        }
        j = j + 1;
    }
    *stored = staying;
}

} // verus!
