//! Translations of an entity, and the rule that makes a set of them valid: no
//! language and no ordinal occurs twice.

use std::collections::HashSet;
use vstd::prelude::*;
use crate::error::MetaEntry;
use crate::error::MetaValue;
use crate::error::MetaValueView;
use crate::validation::ValidationError;
use crate::validation::ValidationErrorView;

verus! {

/// A record that exists once per language and has a place in a display order.
pub trait Translation {
    /// The language code of this translation.
    spec fn spec_language(&self) -> Seq<char>;

    /// The place of this translation in the display order.
    spec fn spec_ordinal(&self) -> int;

    fn language(&self) -> (r: String)
        ensures
            r@ == self.spec_language(),
    ;

    fn ordinal(&self) -> (r: i16)
        ensures
            r as int == self.spec_ordinal(),
    ;
}

/// Whether the language of item `i` already occurs before it.
pub open spec fn language_repeats<T: Translation>(items: Seq<T>, i: int) -> bool {
    exists|j: int| 0 <= j < i && #[trigger] items[j].spec_language() == items[i].spec_language()
}

/// Whether the ordinal of item `i` already occurs before it.
pub open spec fn ordinal_repeats<T: Translation>(items: Seq<T>, i: int) -> bool {
    exists|j: int| 0 <= j < i && #[trigger] items[j].spec_ordinal() == items[i].spec_ordinal()
}

/// Whether item `i` collides with an earlier item in language or ordinal.
pub open spec fn collides<T: Translation>(items: Seq<T>, i: int) -> bool {
    language_repeats(items, i) || ordinal_repeats(items, i)
}

/// The first index at or behind `from` whose item collides with an earlier one;
/// the length of `items` where there is none.
pub open spec fn first_collision_from<T: Translation>(items: Seq<T>, from: int) -> int
    decreases items.len() - from,
{
    if from < 0 || from >= items.len() {
        items.len() as int
    } else if collides(items, from) {
        from
    } else {
        first_collision_from(items, from + 1)
    }
}

/// The first index whose item collides with an earlier one; the length of
/// `items` where there is none.
pub open spec fn first_collision<T: Translation>(items: Seq<T>) -> int {
    first_collision_from(items, 0)
}

/// A set of translations is valid when no two of them share a language or an ordinal.
pub open spec fn unique_translations<T: Translation>(items: Seq<T>) -> bool {
    forall|i: int, j: int|
        0 <= i < j < items.len() ==> {
            &&& #[trigger] items[i].spec_language() != #[trigger] items[j].spec_language()
            &&& items[i].spec_ordinal() != items[j].spec_ordinal()
        }
}

/// The name of the key in which an item collides: the language is looked at first.
pub open spec fn collision_key<T: Translation>(items: Seq<T>, i: int) -> Seq<char> {
    if language_repeats(items, i) {
        "language"@
    } else {
        "ordinal"@
    }
}

/// The validation error that reports a collision at `index` in `key`.
pub open spec fn duplicate_error(index: int, key: Seq<char>) -> ValidationErrorView {
    ValidationErrorView {
        code: "duplicate"@,
        message: None,
        params: seq![
            ("index"@, MetaValueView::Integer(index)),
            ("key"@, MetaValueView::Text(key)),
        ],
    }
}

/// The first collision is an index of `items` or its length; no item before it
/// collides, and the item at it does.
pub proof fn lemma_first_collision_from<T: Translation>(items: Seq<T>, from: int)
    requires
        0 <= from <= items.len(),
    ensures
        from <= first_collision_from(items, from) <= items.len(),
        forall|k: int| from <= k < first_collision_from(items, from) ==> !collides(items, k),
        first_collision_from(items, from) < items.len() ==> collides(
            items,
            first_collision_from(items, from),
        ),
    decreases items.len() - from,
{
    if from < items.len() && !collides(items, from) {
        lemma_first_collision_from(items, from + 1);
    }
}

/// A set of translations is valid exactly when it holds no collision.
pub proof fn lemma_unique_iff_no_collision<T: Translation>(items: Seq<T>)
    ensures
        unique_translations(items) <==> first_collision(items) == items.len(),
{
    lemma_first_collision_from(items, 0);
    let first = first_collision(items);
    if first < items.len() {
        assert(collides(items, first));
        if unique_translations(items) {
            if language_repeats(items, first) {
                let j = choose|j: int|
                    0 <= j < first && #[trigger] items[j].spec_language()
                        == items[first].spec_language();
                assert(items[j].spec_language() != items[first].spec_language());
            } else {
                let j = choose|j: int|
                    0 <= j < first && #[trigger] items[j].spec_ordinal()
                        == items[first].spec_ordinal();
                assert(0 <= j < first < items.len());
                assert(items[j].spec_language() != items[first].spec_language());
                assert(items[j].spec_ordinal() != items[first].spec_ordinal());
            }
        }
        assert(!unique_translations(items));
    } else {
        assert forall|i: int, j: int| 0 <= i < j < items.len() implies {
            &&& #[trigger] items[i].spec_language() != #[trigger] items[j].spec_language()
            &&& items[i].spec_ordinal() != items[j].spec_ordinal()
        } by {
            assert(!collides(items, j));
        }
    }
}

/// What the report of a collision tells the caller: the code `duplicate`, and
/// as context the index of the item and the name of the key, both passed on.
pub proof fn lemma_duplicate_detail(pointer: Seq<char>, index: int, key: Seq<char>)
    ensures
        crate::validation::detail_of(pointer, duplicate_error(index, key)).code == "duplicate"@,
        crate::validation::detail_of(pointer, duplicate_error(index, key)).source.pointer == Some(
            pointer,
        ),
        crate::validation::detail_of(pointer, duplicate_error(index, key)).source.meta == Some(
            seq![("index"@, MetaValueView::Integer(index)), ("key"@, MetaValueView::Text(key))],
        ),
{
    reveal_strlit("index");
    reveal_strlit("key");
    reveal_strlit("value");
    let params = duplicate_error(index, key).params;
    assert("index"@[0] != "value"@[0]);
    assert("key"@.len() != "value"@.len());
    assert(params.drop_last() =~= seq![("index"@, MetaValueView::Integer(index))]);
    assert(params.drop_last().drop_last() =~= Seq::empty());
    reveal_with_fuel(crate::validation::passed_params, 3);
    assert(crate::validation::passed_params(params) =~= params);
}

/// Whether the language `language` occurs among the first `end` items.
fn language_before<T: Translation>(value: &[T], end: usize, language: &String) -> (r: bool)
    requires
        end <= value@.len(),
    ensures
        r == exists|j: int| 0 <= j < end && #[trigger] value@[j].spec_language() == language@,
{
    let mut j: usize = 0;
    while j < end
        invariant
            j <= end <= value@.len(),
            forall|k: int| 0 <= k < j ==> #[trigger] value@[k].spec_language() != language@,
        decreases end - j,
    {
        let other = value[j].language();
        if other == *language {
            return true;
        }
        j = j + 1;
    }
    false
}

/// The validation error for a collision at `index` in the key named `key`: code
/// `duplicate`, with the index and the key as its parameters.
pub fn duplicate(index: usize, key: &str) -> (r: ValidationError)
    ensures
        r@ == duplicate_error(index as int, key@),
{
    let mut params: Vec<MetaEntry> = Vec::new();
    params.push(MetaEntry { key: String::from_str("index"), value: MetaValue::Integer(index as i128) });
    params.push(MetaEntry { key: String::from_str("key"), value: MetaValue::Text(String::from_str(key)) });
    let r = ValidationError { code: String::from_str("duplicate"), message: None, params };
    assert(r@.params =~= duplicate_error(index as int, key@).params);
    r
}

/// Checks that no language and no ordinal occurs twice in `value`.
///
/// The items are looked at in order. The first one that repeats the language of
/// an earlier item, or else the ordinal of an earlier item, is reported with its
/// index and the name of the key; nothing behind it is looked at.
///
/// The ordinals seen so far are kept in a hash set. The languages seen so far
/// are found by going through the earlier items: of a hash set with text as its
/// key nothing is known here.
pub fn validate_unique_translation<T: Translation>(value: &[T]) -> (r: Result<
    (),
    ValidationError,
>)
    ensures
        r is Ok <==> unique_translations(value@),
        r is Ok <==> first_collision(value@) == value@.len(),
        r is Err ==> r->Err_0@ == duplicate_error(
            first_collision(value@),
            collision_key(value@, first_collision(value@)),
        ),
{
    let n = value.len();
    let mut ordinals: HashSet<i16> = HashSet::new();
    let mut i: usize = 0;
    proof {
        lemma_unique_iff_no_collision(value@);
    }
    while i < n
        invariant
            i <= n,
            n == value@.len(),
            first_collision(value@) == first_collision_from(value@, i as int),
            unique_translations(value@) <==> first_collision(value@) == value@.len(),
            forall|ordinal: i16|
                ordinals@.contains(ordinal) <==> exists|j: int|
                    0 <= j < i && #[trigger] value@[j].spec_ordinal() == ordinal as int,
        decreases n - i,
    {
        let language = value[i].language();
        if language_before(value, i, &language) {
            assert(language_repeats(value@, i as int));
            return Err(duplicate(i, "language"));
        }
        let ordinal = value[i].ordinal();
        let ghost seen = ordinals@;
        if !ordinals.insert(ordinal) {
            assert(seen.contains(ordinal));
            assert(ordinal_repeats(value@, i as int));
            return Err(duplicate(i, "ordinal"));
        }
        proof {
            assert(!seen.contains(ordinal));
            assert(!ordinal_repeats(value@, i as int)) by {
                if ordinal_repeats(value@, i as int) {
                    let j = choose|j: int|
                        0 <= j < i && #[trigger] value@[j].spec_ordinal() == value@[i as int].spec_ordinal();
                    assert(seen.contains(ordinal));
                }
            }
            assert forall|o: i16| ordinals@.contains(o) <==> exists|j: int|
                0 <= j < i + 1 && #[trigger] value@[j].spec_ordinal() == o as int by {
                if o == ordinal {
                    assert(value@[i as int].spec_ordinal() == o as int);
                } else if seen.contains(o) {
                    let j = choose|j: int|
                        0 <= j < i && #[trigger] value@[j].spec_ordinal() == o as int;
                    assert(0 <= j < i + 1 && value@[j].spec_ordinal() == o as int);
                } else if exists|j: int|
                    0 <= j < i + 1 && #[trigger] value@[j].spec_ordinal() == o as int {
                    let j = choose|j: int|
                        0 <= j < i + 1 && #[trigger] value@[j].spec_ordinal() == o as int;
                    assert(j < i);
                }
            }
        }
        i = i + 1;
    }
    Ok(())
}

} // verus!
