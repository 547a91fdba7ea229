//! Verified text primitives for the autocomplete search and for the small
//! pieces of text the command flows parse: prefix and substring tests on
//! strings, decimal parsing for database error codes and modal identifiers,
//! and a trusted wrapper around Unicode lowercasing.

use vstd::prelude::*;
use vstd::string::StrSliceExecFns;

verus! {

/// `p` is a prefix of `s`.
pub open spec fn is_prefix(p: Seq<char>, s: Seq<char>) -> bool {
    p.len() <= s.len() && s.subrange(0, p.len() as int) == p
}

/// `p` occurs in `s` starting at index `i`.
pub open spec fn match_at(s: Seq<char>, p: Seq<char>, i: int) -> bool {
    0 <= i && i + p.len() <= s.len() && s.subrange(i, i + p.len() as int) == p
}

/// `p` occurs somewhere in `s`.
pub open spec fn has_substring(s: Seq<char>, p: Seq<char>) -> bool {
    exists|i: int| match_at(s, p, i)
}

/// A prefix occurrence is in particular a substring occurrence, so the
/// starts-with group of a ranked search never loses a match by being checked
/// before the contains group.
pub proof fn lemma_prefix_is_substring(p: Seq<char>, s: Seq<char>)
    requires
        is_prefix(p, s),
    ensures
        has_substring(s, p),
{
    assert(match_at(s, p, 0));
}

/// The empty string is a prefix of every string.
pub proof fn lemma_empty_prefix(s: Seq<char>)
    ensures
        is_prefix(Seq::<char>::empty(), s),
{
    assert(s.subrange(0, 0) =~= Seq::<char>::empty());
}

/// Whether the characters of `s` from `i` on match `p`, checked one character
/// at a time.
fn str_match_at(s: &str, p: &str, i: usize) -> (r: bool)
    requires
        i + p@.len() <= s@.len(),
    ensures
        r == match_at(s@, p@, i as int),
{
    let n = s.unicode_len();
    let m = p.unicode_len();
    let mut k: usize = 0;
    while k < m
        invariant
            n == s@.len(),
            m == p@.len(),
            i + m <= n,
            0 <= k <= m,
            forall|j: int| 0 <= j < k ==> s@[i + j] == p@[j],
        decreases m - k,
    {
        if s.get_char(i + k) != p.get_char(k) {
            assert(!match_at(s@, p@, i as int)) by {
                if s@.subrange(i as int, i + p@.len() as int) == p@ {
                    assert(s@.subrange(i as int, i + p@.len() as int)[k as int] == s@[i + k]);
                }
            }
            return false;
        }
        k += 1;
    }
    assert(s@.subrange(i as int, i + p@.len() as int) =~= p@);
    true
}

/// Whether `s` starts with `p`, compared character for character.
pub fn str_starts_with(s: &str, p: &str) -> (r: bool)
    ensures
        r == is_prefix(p@, s@),
{
    let n = s.unicode_len();
    let m = p.unicode_len();
    if m > n {
        return false;
    }
    let r = str_match_at(s, p, 0);
    assert(is_prefix(p@, s@) == match_at(s@, p@, 0));
    r
}

/// Whether `p` occurs anywhere in `s`, by scanning every start position.
pub fn str_contains(s: &str, p: &str) -> (r: bool)
    ensures
        r == has_substring(s@, p@),
{
    let n = s.unicode_len();
    let m = p.unicode_len();
    if m > n {
        assert(forall|i: int| !match_at(s@, p@, i));
        return false;
    }
    if m == 0 {
        assert(s@.subrange(0, 0) =~= p@);
        assert(match_at(s@, p@, 0));
        return true;
    }
    let mut i: usize = 0;
    while i <= n - m
        invariant
            n == s@.len(),
            m == p@.len(),
            1 <= m <= n,
            0 <= i <= n - m + 1,
            forall|j: int| 0 <= j < i ==> !match_at(s@, p@, j),
        decreases n - i,
    {
        if str_match_at(s, p, i) {
            return true;
        }
        i += 1;
    }
    assert(forall|j: int| match_at(s@, p@, j) ==> 0 <= j <= n - m);
    false
}

/// What `str::to_lowercase` returns for a given sequence of characters. The
/// full Unicode lowercasing tables are not restated here; the name stands for
/// them.
pub uninterp spec fn lower_of(s: Seq<char>) -> Seq<char>;

/// Relies on `str::to_lowercase`: the result depends on the characters alone,
/// and lowercasing the empty string yields the empty string.
#[verifier::external_body]
pub(crate) fn lowercase(s: &str) -> (r: String)
    ensures
        r@ == lower_of(s@),
        s@.len() == 0 ==> r@.len() == 0,
{
    s.to_lowercase()
}

/// `c` is a decimal digit.
pub open spec fn is_digit(c: char) -> bool {
    48 <= c as u32 <= 57
}

/// The numeric value of a decimal digit.
pub open spec fn digit_val(c: char) -> int {
    c as u32 - 48
}

/// Every character of `s` is a decimal digit.
pub open spec fn all_digits(s: Seq<char>) -> bool {
    forall|i: int| 0 <= i < s.len() ==> is_digit(#[trigger] s[i])
}

/// The value of `s` read as a decimal numeral.
pub open spec fn digits_value(s: Seq<char>) -> int
    decreases s.len(),
{
    if s.len() == 0 {
        0
    } else {
        digits_value(s.drop_last()) * 10 + digit_val(s.last())
    }
}

/// `s` is a well-formed decimal numeral whose value fits in a `u64`.
pub open spec fn parses_as_u64(s: Seq<char>) -> bool {
    s.len() > 0 && all_digits(s) && digits_value(s) <= u64::MAX
}

proof fn lemma_digits_value_nonneg(s: Seq<char>)
    requires
        all_digits(s),
    ensures
        digits_value(s) >= 0,
    decreases s.len(),
{
    if s.len() > 0 {
        assert(all_digits(s.drop_last()));
        lemma_digits_value_nonneg(s.drop_last());
    }
}

/// Reading more digits never decreases the value of a numeral.
proof fn lemma_digits_take_monotone(s: Seq<char>, j: int)
    requires
        all_digits(s),
        0 <= j <= s.len(),
    ensures
        digits_value(s.take(j)) <= digits_value(s),
    decreases s.len() - j,
{
    if j == s.len() {
        assert(s.take(j) =~= s);
    } else {
        assert(all_digits(s.take(j + 1)));
        assert(s.take(j + 1).drop_last() =~= s.take(j));
        assert(s.take(j + 1).last() == s[j]);
        lemma_digits_value_nonneg(s.take(j));
        lemma_digits_take_monotone(s, j + 1);
    }
}

/// Parse `s` as an unsigned decimal numeral: `None` if `s` is empty, holds a
/// character other than a digit, or names a value above `u64::MAX`.
pub fn parse_u64(s: &str) -> (r: Option<u64>)
    ensures
        r == if parses_as_u64(s@) {
            Some(digits_value(s@) as u64)
        } else {
            None::<u64>
        },
{
    let n = s.unicode_len();
    if n == 0 {
        return None;
    }
    let mut val: u64 = 0;
    let mut i: usize = 0;
    while i < n
        invariant
            n == s@.len(),
            0 <= i <= n,
            all_digits(s@.take(i as int)),
            val == digits_value(s@.take(i as int)),
        decreases n - i,
    {
        let c = s.get_char(i);
        let cu = c as u32;
        if cu < 48 || cu > 57 {
            assert(!all_digits(s@));
            return None;
        }
        let d = (cu - 48) as u64;
        proof {
            assert(s@.take(i + 1).drop_last() =~= s@.take(i as int));
            assert(s@.take(i + 1).last() == s@[i as int]);
        }
        if val > (u64::MAX - d) / 10 {
            // The numeral read so far is already too large, and any digits
            // that follow only increase it.
            proof {
                assert(all_digits(s@.take(i + 1)));
                assert(digits_value(s@.take(i + 1)) > u64::MAX);
                if all_digits(s@) {
                    lemma_digits_take_monotone(s@, i + 1);
                }
            }
            return None;
        }
        val = val * 10 + d;
        i += 1;
    }
    proof {
        assert(s@.take(n as int) =~= s@);
    }
    Some(val)
}

/// No colon occurs in the first `n` characters of `s`.
pub open spec fn colon_free(s: Seq<char>, n: int) -> bool {
    forall|j: int| 0 <= j < n ==> (#[trigger] s[j]) != ':'
}

/// `s` holds a colon somewhere.
pub open spec fn has_colon(s: Seq<char>) -> bool {
    exists|i: int| 0 <= i < s.len() && #[trigger] s[i] == ':'
}

/// The position of the first colon of `s` (meaningful only when `s` has one).
pub open spec fn first_colon(s: Seq<char>) -> int {
    choose|i: int| 0 <= i < s.len() && s[i] == ':' && colon_free(s, i)
}

/// A position holding the first colon is the one position `first_colon`
/// denotes.
proof fn lemma_first_colon_pins(s: Seq<char>, i: int)
    requires
        0 <= i < s.len(),
        s[i] == ':',
        colon_free(s, i),
    ensures
        has_colon(s),
        first_colon(s) == i,
{
    assert(has_colon(s));
    let j = first_colon(s);
    assert(0 <= j < s.len() && s[j] == ':' && colon_free(s, j)) by {
        assert(0 <= i < s.len() && s[i] == ':' && colon_free(s, i));
    }
    if j < i {
        assert(s[j] != ':');
    } else if i < j {
        assert(s[i] != ':');
    }
}

/// The part of `s` before its first colon; all of `s` if it has none. This is
/// how a modal identifier names the command it belongs to.
pub fn custom_id_prefix(s: &str) -> (r: String)
    ensures
        r@ == if has_colon(s@) {
            s@.subrange(0, first_colon(s@))
        } else {
            s@
        },
{
    let n = s.unicode_len();
    let mut i: usize = 0;
    while i < n
        invariant
            n == s@.len(),
            0 <= i <= n,
            colon_free(s@, i as int),
        decreases n - i,
    {
        if s.get_char(i) == ':' {
            proof {
                lemma_first_colon_pins(s@, i as int);
            }
            let prefix = s.substring_char(0, i);
            return prefix.to_owned();
        }
        i += 1;
    }
    proof {
        if has_colon(s@) {
            let k = choose|k: int| 0 <= k < s@.len() && s@[k] == ':';
            assert(s@[k] != ':');
        }
    }
    s.to_owned()
}

/// The part of `s` after its first colon (meaningful only when `s` has one).
pub open spec fn after_first_colon(s: Seq<char>) -> Seq<char> {
    s.subrange(first_colon(s) + 1, s.len() as int)
}

/// The numeric tail of a modal identifier of the shape `name:id`: the digits
/// after the first colon read as a `u16`. `None` when there is no colon, the
/// tail is empty or not all digits, or the value does not fit.
pub fn parse_id_after_colon(s: &str) -> (r: Option<u16>)
    ensures
        r == if has_colon(s@) && parses_as_u64(after_first_colon(s@)) && digits_value(
            after_first_colon(s@),
        ) <= u16::MAX {
            Some(digits_value(after_first_colon(s@)) as u16)
        } else {
            None::<u16>
        },
{
    let n = s.unicode_len();
    let mut i: usize = 0;
    while i < n
        invariant
            n == s@.len(),
            0 <= i <= n,
            colon_free(s@, i as int),
        decreases n - i,
    {
        if s.get_char(i) == ':' {
            proof {
                lemma_first_colon_pins(s@, i as int);
            }
            let tail = s.substring_char(i + 1, n);
            assert(tail@ == after_first_colon(s@));
            return parse_u16(tail);
        }
        i += 1;
    }
    proof {
        if has_colon(s@) {
            let k = choose|k: int| 0 <= k < s@.len() && s@[k] == ':';
            assert(s@[k] != ':');
        }
    }
    None
}

/// Parse `s` as an unsigned decimal numeral that must fit in a `u16`.
pub fn parse_u16(s: &str) -> (r: Option<u16>)
    ensures
        r == if parses_as_u64(s@) && digits_value(s@) <= u16::MAX {
            Some(digits_value(s@) as u16)
        } else {
            None::<u16>
        },
{
    proof {
        if parses_as_u64(s@) {
            lemma_digits_value_nonneg(s@);
        }
    }
    match parse_u64(s) {
        Some(v) => {
            if v <= u16::MAX as u64 {
                Some(v as u16)
            } else {
                None
            }
        },
        None => None,
    }
}

} // verus!
