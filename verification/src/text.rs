//! Small operations on text that the rest of the library builds on.

use vstd::prelude::*;

verus! {

/// Whether the separator `, ` (a comma, then a space) stands in `s` at position `i`.
pub open spec fn separator_at(s: Seq<char>, i: int) -> bool {
    0 <= i && i + 1 < s.len() && s[i] == ',' && s[i + 1] == ' '
}

/// Where the last segment of a `, `-separated list starts: right behind the last
/// separator, or at 0 where the list holds none.
pub open spec fn last_segment_start(s: Seq<char>) -> int
    decreases s.len(),
{
    if s.len() < 2 {
        0
    } else if separator_at(s, s.len() - 2) {
        s.len() as int
    } else {
        last_segment_start(s.drop_last())
    }
}

/// The last segment of a `, `-separated list: the whole text where it holds no
/// separator, and the empty text where it ends in one.
pub open spec fn last_segment(s: Seq<char>) -> Seq<char> {
    s.subrange(last_segment_start(s), s.len() as int)
}

/// The start of the last segment lies in the text, follows a separator unless it
/// is 0, and no separator begins at or behind it.
pub proof fn lemma_last_segment_start(s: Seq<char>)
    ensures
        0 <= last_segment_start(s) <= s.len(),
        last_segment_start(s) == 0 || separator_at(s, last_segment_start(s) - 2),
        forall|i: int| last_segment_start(s) <= i ==> !separator_at(s, i),
    decreases s.len(),
{
    if s.len() >= 2 && !separator_at(s, s.len() - 2) {
        let p = s.drop_last();
        lemma_last_segment_start(p);
        let start = last_segment_start(p);
        assert(start == 0 || separator_at(s, start - 2)) by {
            if start != 0 {
                assert(separator_at(p, start - 2));
                assert(p[start - 2] == s[start - 2]);
                assert(p[start - 1] == s[start - 1]);
            }
        }
        assert forall|i: int| start <= i implies !separator_at(s, i) by {
            if separator_at(s, i) {
                if i + 2 < s.len() {
                    assert(p[i] == s[i]);
                    assert(p[i + 1] == s[i + 1]);
                    assert(separator_at(p, i));
                }
            }
        }
    }
}

/// The last segment of a `, `-separated list, as `str::split` and `last` give it.
pub fn last_column(columns: &str) -> (r: String)
    ensures
        r@ == last_segment(columns@),
{
    let n = columns.unicode_len();
    let mut k: usize = n;
    assert(columns@.take(k as int) =~= columns@);
    while k >= 2
        invariant
            k <= n,
            n == columns@.len(),
            last_segment_start(columns@) == last_segment_start(columns@.take(k as int)),
        decreases k,
    {
        let ghost prefix = columns@.take(k as int);
        if columns.get_char(k - 2) == ',' && columns.get_char(k - 1) == ' ' {
            assert(separator_at(prefix, k - 2));
            return String::from_str(columns.substring_char(k, n));
        }
        assert(prefix.drop_last() =~= columns@.take(k - 1));
        k = k - 1;
    }
    let r = String::from_str(columns.substring_char(0, n));
    assert(r@ =~= last_segment(columns@));
    r
}

/// The character that writes the digit `d`.
pub open spec fn digit_char(d: int) -> char {
    if d == 0 {
        '0'
    } else if d == 1 {
        '1'
    } else if d == 2 {
        '2'
    } else if d == 3 {
        '3'
    } else if d == 4 {
        '4'
    } else if d == 5 {
        '5'
    } else if d == 6 {
        '6'
    } else if d == 7 {
        '7'
    } else if d == 8 {
        '8'
    } else {
        '9'
    }
}

/// The decimal numeral of `n`, without leading zeros.
pub open spec fn decimal(n: nat) -> Seq<char>
    decreases n,
{
    if n < 10 {
        seq![digit_char(n as int)]
    } else {
        decimal(n / 10).push(digit_char((n % 10) as int))
    }
}

fn digit_text(d: usize) -> (r: &'static str)
    requires
        d < 10,
    ensures
        r@ == seq![digit_char(d as int)],
{
    proof {
        reveal_strlit("0");
        reveal_strlit("1");
        reveal_strlit("2");
        reveal_strlit("3");
        reveal_strlit("4");
        reveal_strlit("5");
        reveal_strlit("6");
        reveal_strlit("7");
        reveal_strlit("8");
        reveal_strlit("9");
    }
    let r = if d == 0 {
        "0"
    } else if d == 1 {
        "1"
    } else if d == 2 {
        "2"
    } else if d == 3 {
        "3"
    } else if d == 4 {
        "4"
    } else if d == 5 {
        "5"
    } else if d == 6 {
        "6"
    } else if d == 7 {
        "7"
    } else if d == 8 {
        "8"
    } else {
        "9"
    };
    assert(r@ =~= seq![digit_char(d as int)]);
    r
}

/// Appends the decimal numeral of `n` to `out`.
pub fn push_decimal(out: &mut String, n: usize)
    ensures
        final(out)@ == old(out)@ + decimal(n as nat),
    decreases n,
{
    if n >= 10 {
        push_decimal(out, n / 10);
    }
    out.append(digit_text(n % 10));
    assert(final(out)@ =~= old(out)@ + decimal(n as nat));
}

/// `text` in lower case, as `str::to_lowercase` gives it.
pub uninterp spec fn lowercase(text: Seq<char>) -> Seq<char>;

/// Calls `str::to_lowercase` of the standard library. The contract only names
/// the text that comes back.
#[verifier::external_body]
pub(crate) fn to_lowercase(text: &str) -> (r: String)
    ensures
        r@ == lowercase(text@),
{
    text.to_lowercase()
}

/// Whether `needle` stands in `haystack` at position `i`.
pub open spec fn occurs_at(haystack: Seq<char>, needle: Seq<char>, i: int) -> bool {
    0 <= i && i + needle.len() <= haystack.len() && haystack.subrange(i, i + needle.len())
        == needle
}

/// Whether `needle` occurs in `haystack` as a run of consecutive characters.
/// The empty text occurs in every text.
pub open spec fn contains_text(haystack: Seq<char>, needle: Seq<char>) -> bool {
    exists|i: int| occurs_at(haystack, needle, i)
}

/// The characters of a text, in order.
pub fn chars_of(text: &str) -> (r: Vec<char>)
    ensures
        r@ == text@,
{
    let n = text.unicode_len();
    let mut out: Vec<char> = Vec::new();
    let mut i: usize = 0;
    while i < n
        invariant
            i <= n,
            n == text@.len(),
            out@ == text@.take(i as int),
        decreases n - i,
    {
        out.push(text.get_char(i));
        assert(out@ =~= text@.take(i + 1));
        i = i + 1;
    }
    assert(text@.take(n as int) =~= text@);
    out
}

/// Whether `needle` stands in `haystack` at position `at`.
fn chars_occur_at(haystack: &Vec<char>, needle: &Vec<char>, at: usize) -> (r: bool)
    requires
        at + needle@.len() <= haystack@.len(),
    ensures
        r == occurs_at(haystack@, needle@, at as int),
{
    let n = haystack.len();
    let m = needle.len();
    let mut k: usize = 0;
    while k < m
        invariant
            k <= m,
            m == needle@.len(),
            n == haystack@.len(),
            at + m <= n,
            forall|j: int| 0 <= j < k ==> haystack@[at + j] == needle@[j],
        decreases m - k,
    {
        if haystack[at + k] != needle[k] {
            assert(haystack@.subrange(at as int, at + m)[k as int] != needle@[k as int]);
            return false;
        }
        k = k + 1;
    }
    assert(haystack@.subrange(at as int, at + m) =~= needle@);
    true
}

/// Whether `needle` occurs in `haystack` as a run of consecutive characters.
pub fn text_contains(haystack: &str, needle: &str) -> (r: bool)
    ensures
        r == contains_text(haystack@, needle@),
{
    let hay = chars_of(haystack);
    let pin = chars_of(needle);
    let n = hay.len();
    let m = pin.len();
    if m > n {
        return false;
    }
    let mut i: usize = 0;
    loop
        invariant
            m <= n,
            n == hay@.len(),
            m == pin@.len(),
            i <= n - m,
            hay@ == haystack@,
            pin@ == needle@,
            forall|j: int| 0 <= j < i ==> !occurs_at(haystack@, needle@, j),
        decreases n - m - i,
    {
        if chars_occur_at(&hay, &pin, i) {
            return true;
        }
        if i == n - m {
            return false;
        }
        i = i + 1;
    }
}

} // verus!
