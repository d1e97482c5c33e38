//! Checks on raw field values.
use vstd::prelude::*;
use crate::text::{all_ascii_digits, is_ascii_digit, is_ascii_digit_char};

verus! {

/// Whether every character of `s` is an ASCII digit (true of the empty string).
pub fn is_digits(s: &str) -> (res: bool)
    ensures
        res == all_ascii_digits(s@),
{
    let n = s.unicode_len();
    let mut i: usize = 0;
    while i < n
        invariant
            n == s@.len(),
            i <= n,
            forall|j: int| 0 <= j < i ==> #[trigger] is_ascii_digit(s@[j]),
        decreases n - i,
    {
        if !is_ascii_digit_char(s.get_char(i)) {
            return false;
        }
        i = i + 1;
    }
    true
}

/// Whether `value` is empty or is 10 bytes long in UTF-8 (`str::len`).
pub fn is_length_10_or_empty(value: &str) -> (res: bool)
    ensures
        res == (value@.len() == 0 || value.len() == 10),
{
    value.is_empty() || value.len() == 10
}

/// Whether `needle` occurs in `haystack` as a contiguous run of characters.
pub open spec fn contains_seq(haystack: Seq<char>, needle: Seq<char>) -> bool {
    exists|i: int|
        0 <= i && i + needle.len() <= haystack.len() && #[trigger] haystack.subrange(
            i,
            i + needle.len(),
        ) == needle
}

/// Whether `needle` occurs in `haystack`.
pub fn contains_str(haystack: &str, needle: &str) -> (res: bool)
    ensures
        res == contains_seq(haystack@, needle@),
{
    let h = haystack.unicode_len();
    let n = needle.unicode_len();
    if n > h {
        assert forall|i: int|
            0 <= i && i + needle@.len() <= haystack@.len() implies #[trigger] haystack@.subrange(
            i,
            i + needle@.len(),
        ) != needle@ by {}
        return false;
    }
    let mut i: usize = 0;
    while i <= h - n
        invariant
            h == haystack@.len(),
            n == needle@.len(),
            n <= h,
            i <= h - n + 1,
            forall|k: int|
                0 <= k < i ==> #[trigger] haystack@.subrange(k, k + needle@.len()) != needle@,
        decreases h - n + 1 - i,
    {
        let mut j: usize = 0;
        let mut same = true;
        while j < n
            invariant
                h == haystack@.len(),
                n == needle@.len(),
                i + n <= h,
                j <= n,
                same == forall|m: int| 0 <= m < j ==> haystack@[i + m] == needle@[m],
            decreases n - j,
        {
            if haystack.get_char(i + j) != needle.get_char(j) {
                same = false;
            }
            j = j + 1;
        }
        if same {
            assert(haystack@.subrange(i as int, i + needle@.len()) =~= needle@);
            return true;
        }
        proof {
            let m = choose|m: int| 0 <= m < n && haystack@[i + m] != needle@[m];
            assert(haystack@.subrange(i as int, i + needle@.len())[m] != needle@[m]);
        }
        i = i + 1;
    }
    assert forall|k: int|
        0 <= k && k + needle@.len() <= haystack@.len() implies #[trigger] haystack@.subrange(
        k,
        k + needle@.len(),
    ) != needle@ by {
        assert(k < i);
    }
    false
}

/// "유동자산" (current assets), which every balance-sheet page has.
pub open spec fn current_assets() -> Seq<char> {
    seq!['유', '동', '자', '산']
}

/// Whether the HTML has a balance sheet: it mentions "유동자산".
pub fn is_html_with_bspl(value: &str) -> (res: bool)
    ensures
        res == contains_seq(value@, current_assets()),
{
    proof {
        reveal_strlit("유동자산");
        assert("유동자산"@ =~= current_assets());
    }
    contains_str(value, "유동자산")
}

} // verus!
