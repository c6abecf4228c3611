//! The sample entity as requests and answers see it.

use vstd::prelude::*;
use crate::error::text_view;
use crate::seek::Seekable;
use crate::translation::collision_key;
use crate::translation::duplicate_error;
use crate::translation::first_collision;
use crate::translation::unique_translations;
use crate::translation::validate_unique_translation;
use crate::translation::Translation;
use crate::validation::body_pointer;
use crate::validation::detail_of;
use crate::validation::rejection;
use crate::validation::FieldEntry;
use crate::validation::ValidationError;
use crate::validation::ValidationErrors;
use crate::validation::ValidationErrorsKind;
use crate::error::ErrorResultView;

verus! {

/// A fixed-point decimal number: `mantissa` divided by ten to the power of `scale`.
#[derive(Debug, Clone, Copy, PartialEq, Eq)]
pub struct Amount {
    pub mantissa: i128,
    pub scale: u32,
}

/// The largest scale of an amount.
pub const MAX_SCALE: u32 = 28;

/// The smallest amount of a sample, in hundredths: 0.01.
pub const MIN_HUNDREDTHS: i128 = 1;

/// The largest amount of a sample, in hundredths: 999999999.99.
pub const MAX_HUNDREDTHS: i128 = 99_999_999_999;

/// Ten to the power of `n`.
pub open spec fn pow10(n: nat) -> int
    decreases n,
{
    if n == 0 {
        1
    } else {
        10 * pow10((n - 1) as nat)
    }
}

/// Powers of ten are positive and grow with the exponent.
pub proof fn lemma_pow10_monotonic(n: nat, m: nat)
    requires
        n <= m,
    ensures
        1 <= pow10(n) <= pow10(m),
    decreases m,
{
    if m > 0 {
        if n < m {
            lemma_pow10_monotonic(n, (m - 1) as nat);
        } else {
            lemma_pow10_monotonic((n - 1) as nat, (m - 1) as nat);
        }
    }
}

/// Some powers of ten, written out.
pub proof fn lemma_pow10_values()
    ensures
        pow10(19) == 10_000_000_000_000_000_000,
        pow10(20) == 100_000_000_000_000_000_000,
        pow10(27) == 1_000_000_000_000_000_000_000_000_000,
        pow10(28) == 10_000_000_000_000_000_000_000_000_000,
{
    reveal_with_fuel(pow10, 30);
}

impl Amount {
    /// An amount is well formed when its scale is at most 28 and its mantissa
    /// fits in 96 bits.
    pub open spec fn wf(&self) -> bool {
        &&& self.scale <= MAX_SCALE
        &&& -0x1_0000_0000_0000_0000_0000_0000 < self.mantissa < 0x1_0000_0000_0000_0000_0000_0000
    }

    /// Whether the amount is one that a sample may have: well formed, at least
    /// 0.01 and at most 999999999.99. In hundredths the amount is
    /// `100 * mantissa / 10^scale`.
    pub open spec fn spec_in_range(&self) -> bool {
        &&& self.wf()
        &&& MIN_HUNDREDTHS * pow10(self.scale as nat) <= 100 * self.mantissa
        &&& 100 * self.mantissa <= MAX_HUNDREDTHS * pow10(self.scale as nat)
    }

    /// Whether the amount is one that a sample may have: from 0.01 to
    /// 999999999.99.
    pub fn in_range(&self) -> (r: bool)
        ensures
            r == self.spec_in_range(),
    {
        if self.scale > MAX_SCALE || self.mantissa <= -0x1_0000_0000_0000_0000_0000_0000
            || self.mantissa >= 0x1_0000_0000_0000_0000_0000_0000 {
            return false;
        }
        let mut power: i128 = 1;
        let mut i: u32 = 0;
        while i < self.scale
            invariant
                i <= self.scale <= 28,
                power == pow10(i as nat),
            decreases self.scale - i,
        {
            proof {
                lemma_pow10_values();
                lemma_pow10_monotonic(i as nat, 27);
            }
            power = power * 10;
            i = i + 1;
        }
        proof {
            lemma_pow10_values();
            lemma_pow10_monotonic(0, self.scale as nat);
            if self.scale >= 20 {
                lemma_pow10_monotonic(20, self.scale as nat);
            } else {
                lemma_pow10_monotonic(self.scale as nat, 19);
            }
        }
        let hundredths: i128 = 100 * self.mantissa;
        if power > hundredths {
            return false;
        }
        if self.scale >= 20 {
            assert(100 * self.mantissa <= MAX_HUNDREDTHS * pow10(self.scale as nat)) by (nonlinear_arith)
                requires
                    pow10(self.scale as nat) >= 100_000_000_000_000_000_000,
                    self.mantissa < 0x1_0000_0000_0000_0000_0000_0000,
                    MAX_HUNDREDTHS == 99_999_999_999,
            ;
            true
        } else {
            assert(MAX_HUNDREDTHS * power <= 999_999_999_990_000_000_000_000_000_000) by (nonlinear_arith)
                requires
                    0 <= power <= 10_000_000_000_000_000_000,
                    MAX_HUNDREDTHS == 99_999_999_999,
            ;
            hundredths <= MAX_HUNDREDTHS * power
        }
    }
}

/// What narrows a keyset-paginated listing of samples.
#[derive(Debug, Clone, PartialEq, Eq)]
pub struct SampleSeekFilter {
    /// The language in which names and descriptions are preferred.
    pub language: Option<String>,
    /// Text that the name must contain.
    pub query: Option<String>,
}

/// A sample as a listing shows it.
#[derive(Debug, Clone, PartialEq, Eq)]
pub struct SampleList {
    pub id: i64,
    pub name: String,
    pub description: Option<String>,
    pub amount: Amount,
    /// The creation instant, in nanoseconds since the Unix epoch.
    pub created_at: i128,
}

/// What a [`SampleList`] stands for.
pub struct SampleListView {
    pub id: int,
    pub name: Seq<char>,
    pub description: Option<Seq<char>>,
    pub amount: Amount,
    pub created_at: int,
}

impl View for SampleList {
    type V = SampleListView;

    open spec fn view(&self) -> SampleListView {
        SampleListView {
            id: self.id as int,
            name: self.name@,
            description: text_view(self.description),
            amount: self.amount,
            created_at: self.created_at as int,
        }
    }
}

/// The rows that a listing holds, in order.
pub open spec fn list_view(rows: Seq<SampleList>) -> Seq<SampleListView> {
    rows.map_values(|row: SampleList| row@)
}

/// The function that gives each listed row its key: its creation instant,
/// then its identifier.
pub open spec fn list_key() -> spec_fn(SampleListView) -> (int, int) {
    |row: SampleListView| (row.created_at, row.id)
}

impl Seekable for SampleList {
    open spec fn spec_created_at(&self) -> i128 {
        self.created_at
    }

    open spec fn spec_id(&self) -> i64 {
        self.id
    }

    fn created_at(&self) -> (r: i128) {
        self.created_at
    }

    fn id(&self) -> (r: i64) {
        self.id
    }
}

/// Name and description of a sample in one language.
#[derive(Debug, Clone, PartialEq, Eq)]
pub struct SampleTranslation {
    pub name: String,
    pub description: Option<String>,
    /// The language code, two to four characters long.
    pub language: String,
    /// The place in the display order, from 1 to 100.
    pub ordinal: i16,
}

/// What a [`SampleTranslation`] stands for.
pub struct SampleTranslationView {
    pub name: Seq<char>,
    pub description: Option<Seq<char>>,
    pub language: Seq<char>,
    pub ordinal: int,
}

impl View for SampleTranslation {
    type V = SampleTranslationView;

    open spec fn view(&self) -> SampleTranslationView {
        SampleTranslationView {
            name: self.name@,
            description: text_view(self.description),
            language: self.language@,
            ordinal: self.ordinal as int,
        }
    }
}

impl Translation for SampleTranslation {
    open spec fn spec_language(&self) -> Seq<char> {
        self.language@
    }

    open spec fn spec_ordinal(&self) -> int {
        self.ordinal as int
    }

    fn language(&self) -> (r: String) {
        self.language.clone()
    }

    fn ordinal(&self) -> (r: i16) {
        self.ordinal
    }
}

impl SampleTranslation {
    /// A copy of this translation.
    pub fn copy(&self) -> (r: SampleTranslation)
        ensures
            r@ == self@,
    {
        SampleTranslation {
            name: self.name.clone(),
            description: match &self.description {
                Some(d) => Some(d.clone()),
                None => None,
            },
            language: self.language.clone(),
            ordinal: self.ordinal,
        }
    }
}

/// The translations that a list holds, in order.
pub open spec fn translations_view(translations: Seq<SampleTranslation>) -> Seq<
    SampleTranslationView,
> {
    translations.map_values(|t: SampleTranslation| t@)
}

/// What a caller submits to create or update a sample: the content of the
/// sample and the full set of its translations.
#[derive(Debug, Clone, PartialEq, Eq)]
pub struct SampleRequest {
    pub name: String,
    pub description: Option<String>,
    pub amount: Amount,
    pub translations: Vec<SampleTranslation>,
}

/// A sample in full.
#[derive(Debug, Clone, PartialEq, Eq)]
pub struct SampleDetail {
    pub id: i64,
    pub name: String,
    pub description: Option<String>,
    pub amount: Amount,
    /// The number of writes that the sample has seen.
    pub version: i16,
    /// The translations of the sample, where the answer lists them.
    pub translations: Option<Vec<SampleTranslation>>,
    /// The creation instant, in nanoseconds since the Unix epoch.
    pub created_at: i128,
}

/// What a [`SampleRequest`] stands for.
pub struct SampleRequestView {
    pub name: Seq<char>,
    pub description: Option<Seq<char>>,
    pub amount: Amount,
    pub translations: Seq<SampleTranslationView>,
}

impl View for SampleRequest {
    type V = SampleRequestView;

    open spec fn view(&self) -> SampleRequestView {
        SampleRequestView {
            name: self.name@,
            description: text_view(self.description),
            amount: self.amount,
            translations: translations_view(self.translations@),
        }
    }
}

/// The name of the field of a request that holds the translations.
pub const TRANSLATIONS_FIELD: &'static str = "translations";

/// What a request is rejected with when two of its translations share a
/// language or an ordinal: status 400 and one detail with the code `duplicate`,
/// the pointer `/body/translations`, and as context the index of the first
/// translation that repeats a key of an earlier one and the name of that key.
pub open spec fn duplicate_rejection(translations: Seq<SampleTranslation>) -> ErrorResultView {
    ErrorResultView {
        status: 400,
        errors: seq![
            detail_of(
                body_pointer(TRANSLATIONS_FIELD@),
                duplicate_error(
                    first_collision(translations),
                    collision_key(translations, first_collision(translations)),
                ),
            ),
        ],
    }
}

impl SampleRequest {
    /// Checks the rule that spans the translations of the request: no language
    /// and no ordinal occurs twice. The rules on single fields are checked
    /// where the request is read.
    pub fn validate(&self) -> (r: Result<(), ValidationErrors>)
        ensures
            match r {
                Ok(_) => unique_translations(self.translations@),
                Err(errors) => {
                    &&& !unique_translations(self.translations@)
                    &&& errors.entries@.len() == 1
                    &&& errors.entries@[0].field@ == TRANSLATIONS_FIELD@
                    &&& errors.entries@[0].kind is Field
                    &&& errors.entries@[0].kind->Field_0@.len() == 1
                    &&& errors.entries@[0].kind->Field_0@[0]@ == duplicate_error(
                        first_collision(self.translations@),
                        collision_key(self.translations@, first_collision(self.translations@)),
                    )
                    &&& rejection(errors) == duplicate_rejection(self.translations@)
                },
            },
    {
        match validate_unique_translation(self.translations.as_slice()) {
            Ok(_) => Ok(()),
            Err(error) => {
                let mut list: Vec<ValidationError> = Vec::new();
                list.push(error);
                let mut entries: Vec<FieldEntry> = Vec::new();
                entries.push(
                    FieldEntry {
                        field: String::from_str(TRANSLATIONS_FIELD),
                        kind: ValidationErrorsKind::Field(list),
                    },
                );
                let errors = ValidationErrors { entries };
                proof {
                    let entry = errors.entries@[0];
                    assert(crate::validation::validation_details_upto(errors.entries@, 0)
                        =~= Seq::empty());
                    assert(crate::validation::entry_details(entry)
                        =~= seq![detail_of(body_pointer(TRANSLATIONS_FIELD@), error@)]);
                    assert(crate::validation::validation_details_upto(errors.entries@, 1)
                        =~= seq![detail_of(body_pointer(TRANSLATIONS_FIELD@), error@)]);
                }
                Err(errors)
            },
        }
    }
}

/// What a [`SampleDetail`] stands for.
pub struct SampleDetailView {
    pub id: int,
    pub name: Seq<char>,
    pub description: Option<Seq<char>>,
    pub amount: Amount,
    pub version: int,
    pub translations: Option<Seq<SampleTranslationView>>,
    pub created_at: int,
}

impl View for SampleDetail {
    type V = SampleDetailView;

    open spec fn view(&self) -> SampleDetailView {
        SampleDetailView {
            id: self.id as int,
            name: self.name@,
            description: text_view(self.description),
            amount: self.amount,
            version: self.version as int,
            translations: match self.translations {
                Some(t) => Some(translations_view(t@)),
                None => None,
            },
            created_at: self.created_at as int,
        }
    }
}

/// A copy of an optional text.
pub fn copy_text(value: &Option<String>) -> (r: Option<String>)
    ensures
        text_view(r) == text_view(*value),
{
    match value {
        Some(s) => Some(s.clone()),
        None => None,
    }
}

/// A copy of a list of translations.
pub fn copy_translations(translations: &Vec<SampleTranslation>) -> (r: Vec<SampleTranslation>)
    ensures
        translations_view(r@) == translations_view(translations@),
{
    let n = translations.len();
    let mut out: Vec<SampleTranslation> = Vec::new();
    let mut i: usize = 0;
    while i < n
        invariant
            i <= n,
            n == translations@.len(),
            translations_view(out@) == translations_view(translations@).take(i as int),
        decreases n - i,
    {
        let ghost before = out@;
        out.push(translations[i].copy());
        assert(translations_view(out@) =~= translations_view(before).push(
            translations@[i as int]@,
        ));
        assert(translations_view(translations@).take(i + 1) =~= translations_view(
            translations@,
        ).take(i as int).push(translations@[i as int]@));
        i = i + 1;
    }
    assert(translations_view(translations@).take(n as int) =~= translations_view(translations@));
    out
}

/// A set of translations column by column, as a bulk statement takes it: the
/// entry at one index of each column belongs to one translation.
#[derive(Debug, Clone, PartialEq, Eq)]
pub struct SampleTranslationsBinds {
    pub names: Vec<String>,
    pub descriptions: Vec<Option<String>>,
    pub languages: Vec<String>,
    pub ordinals: Vec<i16>,
}

/// What a [`SampleTranslationsBinds`] stands for.
pub struct SampleTranslationsBindsView {
    pub names: Seq<Seq<char>>,
    pub descriptions: Seq<Option<Seq<char>>>,
    pub languages: Seq<Seq<char>>,
    pub ordinals: Seq<int>,
}

impl View for SampleTranslationsBinds {
    type V = SampleTranslationsBindsView;

    open spec fn view(&self) -> SampleTranslationsBindsView {
        SampleTranslationsBindsView {
            names: self.names@.map_values(|s: String| s@),
            descriptions: self.descriptions@.map_values(|s: Option<String>| text_view(s)),
            languages: self.languages@.map_values(|s: String| s@),
            ordinals: self.ordinals@.map_values(|n: i16| n as int),
        }
    }
}

/// The columns of a list of translations.
pub open spec fn binds_of(translations: Seq<SampleTranslationView>) -> SampleTranslationsBindsView {
    SampleTranslationsBindsView {
        names: translations.map_values(|t: SampleTranslationView| t.name),
        descriptions: translations.map_values(|t: SampleTranslationView| t.description),
        languages: translations.map_values(|t: SampleTranslationView| t.language),
        ordinals: translations.map_values(|t: SampleTranslationView| t.ordinal),
    }
}

/// Splits a list of translations into its columns, keeping the order.
pub fn translations_binds(translations: Vec<SampleTranslation>) -> (r: SampleTranslationsBinds)
    ensures
        r@ == binds_of(translations_view(translations@)),
{
    let len = translations.len();
    let mut names: Vec<String> = Vec::with_capacity(len);
    let mut descriptions: Vec<Option<String>> = Vec::with_capacity(len);
    let mut languages: Vec<String> = Vec::with_capacity(len);
    let mut ordinals: Vec<i16> = Vec::with_capacity(len);
    let mut i: usize = 0;
    while i < len
        invariant
            i <= len,
            len == translations@.len(),
            names@.len() == i,
            descriptions@.len() == i,
            languages@.len() == i,
            ordinals@.len() == i,
            forall|k: int| 0 <= k < i ==> (#[trigger] names@[k])@ == translations@[k].name@,
            forall|k: int|
                0 <= k < i ==> text_view(#[trigger] descriptions@[k]) == text_view(
                    translations@[k].description,
                ),
            forall|k: int| 0 <= k < i ==> (#[trigger] languages@[k])@ == translations@[k].language@,
            forall|k: int| 0 <= k < i ==> #[trigger] ordinals@[k] == translations@[k].ordinal,
        decreases len - i,
    {
        let translation = translations[i].copy();
        names.push(translation.name);
        descriptions.push(translation.description);
        languages.push(translation.language);
        ordinals.push(translation.ordinal);
        i = i + 1;
    }
    let r = SampleTranslationsBinds { names, descriptions, languages, ordinals };
    proof {
        let expected = binds_of(translations_view(translations@));
        assert(r@.names =~= expected.names);
        assert(r@.descriptions =~= expected.descriptions);
        assert(r@.languages =~= expected.languages);
        assert(r@.ordinals =~= expected.ordinals);
    }
    r
}

/// The conversion is specified by the contract of `from` itself, over the view
/// of its result; no value of the type is singled out here.
impl vstd::std_specs::convert::FromSpecImpl<Vec<SampleTranslation>> for SampleTranslationsBinds {
    open spec fn obeys_from_spec() -> bool {
        false
    }

    open spec fn from_spec(val: Vec<SampleTranslation>) -> Self {
        arbitrary()
    }
}

impl From<Vec<SampleTranslation>> for SampleTranslationsBinds {
    fn from(val: Vec<SampleTranslation>) -> (r: Self)
        ensures
            r@ == binds_of(translations_view(val@)),
    {
        translations_binds(val)
    }
}

} // verus!
