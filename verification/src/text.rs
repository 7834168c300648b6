//! Small operations on text that the tables and generators share.

use vstd::prelude::*;

verus! {

/// Whether two strings hold the same characters.
pub fn same_text(a: &str, b: &str) -> (r: bool)
    ensures
        r == (a@ == b@),
{
    let x = a.to_owned();
    let y = b.to_owned();
    x == y
}

/// A copy of a list of strings.
pub fn copy_texts(items: &Vec<String>) -> (r: Vec<String>)
    ensures
        r.deep_view() == items.deep_view(),
{
    let mut r: Vec<String> = Vec::new();
    let mut i: usize = 0;
    while i < items.len()
        invariant
            i <= items@.len(),
            r@.len() == i,
            forall|j: int| 0 <= j < i ==> r@[j]@ == items@[j]@,
        decreases items@.len() - i,
    {
        r.push(items[i].clone());
        i += 1;
    }
    proof {
        assert(r.deep_view() =~= items.deep_view());
    }
    r
}

/// The lower-case form of a text, as `str::to_lowercase` gives it.
pub uninterp spec fn lowercase_text(s: Seq<char>) -> Seq<char>;

/// Calls `str::to_lowercase`: the result is the lower-case form of the text,
/// which depends on the text alone.
#[verifier::external_body]
pub(crate) fn to_lower(s: &str) -> (r: String)
    ensures
        r@ == lowercase_text(s@),
{
    s.to_lowercase()
}

/// Whether `c` is white space: a character with the Unicode property
/// `White_Space`.
pub open spec fn is_space(c: char) -> bool {
    ||| ('\u{0009}' <= c && c <= '\u{000d}')
    ||| c == '\u{0020}'
    ||| c == '\u{0085}'
    ||| c == '\u{00a0}'
    ||| c == '\u{1680}'
    ||| ('\u{2000}' <= c && c <= '\u{200a}')
    ||| c == '\u{2028}'
    ||| c == '\u{2029}'
    ||| c == '\u{202f}'
    ||| c == '\u{205f}'
    ||| c == '\u{3000}'
}

/// Whether `c` is white space.
pub fn is_space_char(c: char) -> (r: bool)
    ensures
        r == is_space(c),
{
    ('\u{0009}' <= c && c <= '\u{000d}') || c == '\u{0020}' || c == '\u{0085}' || c == '\u{00a0}'
        || c == '\u{1680}' || ('\u{2000}' <= c && c <= '\u{200a}') || c == '\u{2028}' || c
        == '\u{2029}' || c == '\u{202f}' || c == '\u{205f}' || c == '\u{3000}'
}

/// `s` without the white space at its start.
pub open spec fn trimmed_start(s: Seq<char>) -> Seq<char>
    decreases s.len(),
{
    if s.len() > 0 && is_space(s.first()) {
        trimmed_start(s.drop_first())
    } else {
        s
    }
}

/// `s` without the white space at its end.
pub open spec fn trimmed_end(s: Seq<char>) -> Seq<char>
    decreases s.len(),
{
    if s.len() > 0 && is_space(s.last()) {
        trimmed_end(s.drop_last())
    } else {
        s
    }
}

/// `s` without the white space at its two ends.
pub open spec fn trimmed_text(s: Seq<char>) -> Seq<char> {
    trimmed_end(trimmed_start(s))
}

/// Calls `str::trim`: the result is the text without the white space at its
/// start and at its end, where white space is what has the Unicode property
/// `White_Space`.
#[verifier::external_body]
pub(crate) fn trim_text(s: &str) -> (r: String)
    ensures
        r@ == trimmed_text(s@),
{
    s.trim().to_string()
}

/// The fields of `s` between commas, from position `i` on, where the field
/// that is being read began at `start`. Empty fields count.
pub open spec fn fields_from(s: Seq<char>, start: int, i: int) -> Seq<Seq<char>>
    decreases s.len() - i,
{
    if i >= s.len() {
        seq![s.subrange(start, s.len() as int)]
    } else if s[i] == ',' {
        seq![s.subrange(start, i)] + fields_from(s, i + 1, i + 1)
    } else {
        fields_from(s, start, i + 1)
    }
}

/// The fields of a comma-separated text: one more than it has commas.
pub open spec fn comma_fields(s: Seq<char>) -> Seq<Seq<char>> {
    fields_from(s, 0, 0)
}

/// Splits a text at its commas and keeps every field, empty ones too.
pub fn split_fields(s: &str) -> (r: Vec<String>)
    ensures
        r.deep_view() == comma_fields(s@),
{
    let n = s.unicode_len();
    let mut r: Vec<String> = Vec::new();
    let mut start: usize = 0;
    let mut i: usize = 0;
    proof {
        assert(r.deep_view() + fields_from(s@, 0, 0) =~= comma_fields(s@));
    }
    while i < n
        invariant
            n == s@.len(),
            start <= i <= n,
            r.deep_view() + fields_from(s@, start as int, i as int) == comma_fields(s@),
        decreases n - i,
    {
        if s.get_char(i) == ',' {
            let ghost before = r.deep_view();
            r.push(String::from_str(s.substring_char(start, i)));
            proof {
                assert(r.deep_view() =~= before + seq![s@.subrange(start as int, i as int)]);
                assert(r.deep_view() + fields_from(s@, i + 1, i + 1) =~= before + fields_from(
                    s@,
                    start as int,
                    i as int,
                ));
            }
            start = i + 1;
        }
        i += 1;
    }
    let ghost before = r.deep_view();
    r.push(String::from_str(s.substring_char(start, n)));
    proof {
        assert(r.deep_view() =~= before + seq![s@.subrange(start as int, n as int)]);
    }
    r
}

/// Whether `pattern` stands in `s` at position `k`.
pub open spec fn occurs_at(s: Seq<char>, pattern: Seq<char>, k: int) -> bool {
    &&& 0 <= k
    &&& k + pattern.len() <= s.len()
    &&& s.subrange(k, k + pattern.len()) == pattern
}

/// The first position at which `pattern` stands in `s`.
pub fn find_text(s: &str, pattern: &str) -> (r: Option<usize>)
    ensures
        match r {
            Some(k) => occurs_at(s@, pattern@, k as int) && forall|j: int|
                0 <= j < k ==> !occurs_at(s@, pattern@, j),
            None => forall|j: int| !occurs_at(s@, pattern@, j),
        },
{
    let n = s.unicode_len();
    let m = pattern.unicode_len();
    if m > n {
        return None;
    }
    let mut k: usize = 0;
    while k < n - m
        invariant
            n == s@.len(),
            m == pattern@.len(),
            m <= n,
            k <= n - m,
            forall|j: int| 0 <= j < k ==> !occurs_at(s@, pattern@, j),
        decreases n - m - k,
    {
        if same_text(s.substring_char(k, k + m), pattern) {
            return Some(k);
        }
        k += 1;
    }
    if same_text(s.substring_char(k, n), pattern) {
        Some(k)
    } else {
        None
    }
}

} // verus!
