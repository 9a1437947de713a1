//! Character-level text operations over `Vec<char>`, stated over `Seq<char>`.
use vstd::prelude::*;

verus! {

/// Whether a character has the Unicode `White_Space` property, which `char::is_whitespace`
/// reports: U+0009 to U+000D, U+0020, U+0085, U+00A0, U+1680, U+2000 to U+200A, U+2028,
/// U+2029, U+202F, U+205F and U+3000.
pub open spec fn unicode_white_space(c: char) -> bool {
    let v = c as u32;
    ||| 0x9 <= v <= 0xd
    ||| v == 0x20
    ||| v == 0x85
    ||| v == 0xa0
    ||| v == 0x1680
    ||| 0x2000 <= v <= 0x200a
    ||| v == 0x2028
    ||| v == 0x2029
    ||| v == 0x202f
    ||| v == 0x205f
    ||| v == 0x3000
}

/// Whether a character is white space, as `char::is_whitespace` says.
pub fn is_whitespace(c: char) -> (white: bool)
    ensures
        white == unicode_white_space(c),
{
    let v = c as u32;
    (0x9 <= v && v <= 0xd) || v == 0x20 || v == 0x85 || v == 0xa0 || v == 0x1680 || (0x2000 <= v
        && v <= 0x200a) || v == 0x2028 || v == 0x2029 || v == 0x202f || v == 0x205f || v == 0x3000
}

/// `str::chars` collected: the characters of a string slice, in order.
pub fn chars_of(text: &str) -> (chars: Vec<char>)
    ensures
        chars@ == text@,
{
    let mut chars: Vec<char> = Vec::new();
    broadcast use vstd::string::axiom_spec_iter;

    for c in it: text.chars()
        invariant
            chars@ == it.seq().take(it.index() as int),
    {
        chars.push(c);
        assert(chars@ =~= it.seq().take(it.index() as int + 1));
    }
    assert(chars@ =~= text@);
    chars
}

/// The text without leading white space.
pub open spec fn trim_start(s: Seq<char>) -> Seq<char>
    decreases s.len(),
{
    if s.len() > 0 && unicode_white_space(s[0]) {
        trim_start(s.drop_first())
    } else {
        s
    }
}

/// The text without trailing white space.
pub open spec fn trim_end(s: Seq<char>) -> Seq<char>
    decreases s.len(),
{
    if s.len() > 0 && unicode_white_space(s.last()) {
        trim_end(s.drop_last())
    } else {
        s
    }
}

/// `str::trim`: the text without leading and trailing white space.
pub open spec fn trim(s: Seq<char>) -> Seq<char> {
    trim_end(trim_start(s))
}

pub open spec fn ascii_lower_char(c: char) -> char {
    if 'A' <= c <= 'Z' {
        ((c as u32) + 32) as char
    } else {
        c
    }
}

/// `str::to_ascii_lowercase`: ASCII capitals become small letters, every other character stays.
pub open spec fn ascii_lower(s: Seq<char>) -> Seq<char> {
    s.map_values(|c: char| ascii_lower_char(c))
}

pub open spec fn is_ascii_digit(c: char) -> bool {
    '0' <= c <= '9'
}

/// A non-empty run of ASCII digits.
pub open spec fn all_ascii_digits(s: Seq<char>) -> bool {
    s.len() > 0 && forall|i: int| 0 <= i < s.len() ==> is_ascii_digit(#[trigger] s[i])
}

/// `s` holds `pattern` at `start`.
pub open spec fn occurs_at(s: Seq<char>, pattern: Seq<char>, start: int) -> bool {
    0 <= start && start + pattern.len() <= s.len() && s.subrange(start, start + pattern.len())
        == pattern
}

/// `str::strip_prefix`.
pub open spec fn strip_prefix(s: Seq<char>, prefix: Seq<char>) -> Option<Seq<char>> {
    if occurs_at(s, prefix, 0) {
        Some(s.subrange(prefix.len() as int, s.len() as int))
    } else {
        None
    }
}

/// `str::strip_suffix`.
pub open spec fn strip_suffix(s: Seq<char>, suffix: Seq<char>) -> Option<Seq<char>> {
    if suffix.len() <= s.len() && occurs_at(s, suffix, s.len() - suffix.len()) {
        Some(s.subrange(0, s.len() - suffix.len()))
    } else {
        None
    }
}

/// The start of the right-most occurrence of `pattern` in `s`.
pub open spec fn last_occurrence(s: Seq<char>, pattern: Seq<char>) -> Option<int> {
    if exists|i: int| occurs_at(s, pattern, i) {
        Some(
            choose|i: int|
                occurs_at(s, pattern, i) && forall|j: int| occurs_at(s, pattern, j) ==> j <= i,
        )
    } else {
        None
    }
}

/// `str::rsplit_once`: the text before and after the right-most occurrence of `pattern`.
pub open spec fn rsplit_once(s: Seq<char>, pattern: Seq<char>) -> Option<(Seq<char>, Seq<char>)> {
    match last_occurrence(s, pattern) {
        Some(i) => Some((s.subrange(0, i), s.subrange(i + pattern.len(), s.len() as int))),
        None => None,
    }
}

/// Whether `pattern` occurs in `s` at `start`.
pub fn matches_at(s: &Vec<char>, pattern: &Vec<char>, start: usize) -> (found: bool)
    ensures
        found == occurs_at(s@, pattern@, start as int),
{
    if start > s.len() || pattern.len() > s.len() - start {
        return false;
    }
    let mut k: usize = 0;
    while k < pattern.len()
        invariant
            s@.len() <= usize::MAX,
            start <= s@.len(),
            start + pattern@.len() <= s@.len(),
            k <= pattern@.len(),
            forall|m: int| 0 <= m < k ==> s@[start + m] == pattern@[m],
        decreases pattern@.len() - k,
    {
        if s[start + k] != pattern[k] {
            assert(s@.subrange(start as int, start + pattern@.len())[k as int] != pattern@[k as int]);
            return false;
        }
        k = k + 1;
    }
    assert(s@.subrange(start as int, start + pattern@.len()) =~= pattern@);
    true
}

/// Equality of two character sequences.
pub fn same_chars(left: &Vec<char>, right: &Vec<char>) -> (same: bool)
    ensures
        same == (left@ == right@),
{
    if left.len() != right.len() {
        return false;
    }
    let found = matches_at(left, right, 0);
    assert(left@.subrange(0, right@.len() as int) =~= left@);
    found
}

/// The characters in `start..end`.
pub fn slice_chars(s: &Vec<char>, start: usize, end: usize) -> (part: Vec<char>)
    requires
        start <= end <= s@.len(),
    ensures
        part@ == s@.subrange(start as int, end as int),
{
    let mut part: Vec<char> = Vec::new();
    let mut k = start;
    while k < end
        invariant
            start <= k <= end <= s@.len(),
            part@ == s@.subrange(start as int, k as int),
        decreases end - k,
    {
        part.push(s[k]);
        k = k + 1;
        assert(part@ =~= s@.subrange(start as int, k as int));
    }
    part
}

/// `str::strip_prefix` over characters.
pub fn strip_prefix_chars(s: &Vec<char>, prefix: &Vec<char>) -> (rest: Option<Vec<char>>)
    ensures
        match rest {
            Some(r) => strip_prefix(s@, prefix@) == Some(r@),
            None => strip_prefix(s@, prefix@) is None,
        },
{
    if matches_at(s, prefix, 0) {
        Some(slice_chars(s, prefix.len(), s.len()))
    } else {
        None
    }
}

/// `str::strip_suffix` over characters.
pub fn strip_suffix_chars(s: &Vec<char>, suffix: &Vec<char>) -> (rest: Option<Vec<char>>)
    ensures
        match rest {
            Some(r) => strip_suffix(s@, suffix@) == Some(r@),
            None => strip_suffix(s@, suffix@) is None,
        },
{
    if suffix.len() <= s.len() && matches_at(s, suffix, s.len() - suffix.len()) {
        Some(slice_chars(s, 0, s.len() - suffix.len()))
    } else {
        None
    }
}

/// `str::rsplit_once` over characters.
pub fn rsplit_once_chars(s: &Vec<char>, pattern: &Vec<char>) -> (parts: Option<(Vec<char>, Vec<char>)>)
    ensures
        match parts {
            Some((before, after)) => rsplit_once(s@, pattern@) == Some((before@, after@)),
            None => rsplit_once(s@, pattern@) is None,
        },
{
    if pattern.len() > s.len() {
        assert(forall|i: int| !occurs_at(s@, pattern@, i));
        return None;
    }
    let mut i: usize = s.len() - pattern.len();
    loop
        invariant
            s@.len() <= usize::MAX,
            pattern@.len() <= s@.len(),
            i <= s@.len() - pattern@.len(),
            forall|j: int| i < j ==> !occurs_at(s@, pattern@, j),
        decreases i,
    {
        if matches_at(s, pattern, i) {
            let ghost at = i as int;
            assert(forall|j: int| occurs_at(s@, pattern@, j) ==> j <= at);
            assert(last_occurrence(s@, pattern@) == Some(at));
            let before = slice_chars(s, 0, i);
            let after = slice_chars(s, i + pattern.len(), s.len());
            return Some((before, after));
        }
        if i == 0 {
            assert(forall|j: int| !occurs_at(s@, pattern@, j));
            return None;
        }
        i = i - 1;
    }
}

/// Every character is an ASCII digit and there is at least one.
pub fn all_digits(s: &Vec<char>) -> (digits: bool)
    ensures
        digits == all_ascii_digits(s@),
{
    if s.len() == 0 {
        return false;
    }
    let mut k: usize = 0;
    while k < s.len()
        invariant
            k <= s@.len(),
            forall|m: int| 0 <= m < k ==> is_ascii_digit(#[trigger] s@[m]),
        decreases s@.len() - k,
    {
        if !(s[k] >= '0' && s[k] <= '9') {
            return false;
        }
        k = k + 1;
    }
    true
}

proof fn lemma_trim_start_is_suffix(s: Seq<char>, k: int)
    requires
        0 <= k <= s.len(),
        forall|m: int| 0 <= m < k ==> unicode_white_space(#[trigger] s[m]),
    ensures
        trim_start(s) == trim_start(s.subrange(k, s.len() as int)),
    decreases k,
{
    if k > 0 {
        assert(unicode_white_space(s[0]));
        assert(trim_start(s) == trim_start(s.drop_first()));
        assert forall|m: int| 0 <= m < k - 1 implies unicode_white_space(
            #[trigger] s.drop_first()[m],
        ) by {
            assert(s.drop_first()[m] == s[m + 1]);
        }
        lemma_trim_start_is_suffix(s.drop_first(), k - 1);
        assert(s.drop_first().subrange(k - 1, s.drop_first().len() as int) =~= s.subrange(
            k,
            s.len() as int,
        ));
    } else {
        assert(s.subrange(0, s.len() as int) =~= s);
    }
}

proof fn lemma_trim_end_is_prefix(s: Seq<char>, k: int)
    requires
        0 <= k <= s.len(),
        forall|m: int| k <= m < s.len() ==> unicode_white_space(#[trigger] s[m]),
    ensures
        trim_end(s) == trim_end(s.subrange(0, k)),
    decreases s.len() - k,
{
    if k < s.len() {
        assert(unicode_white_space(s[s.len() - 1]));
        assert(trim_end(s) == trim_end(s.drop_last()));
        assert forall|m: int| k <= m < s.drop_last().len() implies unicode_white_space(
            #[trigger] s.drop_last()[m],
        ) by {
            assert(s.drop_last()[m] == s[m]);
        }
        lemma_trim_end_is_prefix(s.drop_last(), k);
        assert(s.drop_last().subrange(0, k) =~= s.subrange(0, k));
    } else {
        assert(s.subrange(0, k) =~= s);
    }
}

/// `str::trim` over characters.
pub fn trim_chars(s: &Vec<char>) -> (trimmed: Vec<char>)
    ensures
        trimmed@ == trim(s@),
{
    let mut start: usize = 0;
    while start < s.len() && is_whitespace(s[start])
        invariant
            start <= s@.len(),
            forall|m: int| 0 <= m < start ==> unicode_white_space(#[trigger] s@[m]),
        decreases s@.len() - start,
    {
        start = start + 1;
    }
    let ghost rest = s@.subrange(start as int, s@.len() as int);
    proof {
        lemma_trim_start_is_suffix(s@, start as int);
        assert(trim_start(rest) == rest);
    }
    let mut end: usize = s.len();
    while end > start && is_whitespace(s[end - 1])
        invariant
            start <= end <= s@.len(),
            forall|m: int| end <= m < s@.len() ==> unicode_white_space(#[trigger] s@[m]),
        decreases end,
    {
        end = end - 1;
    }
    proof {
        assert forall|m: int| (end - start) <= m < rest.len() implies unicode_white_space(
            #[trigger] rest[m],
        ) by {
            assert(rest[m] == s@[start + m]);
        }
        lemma_trim_end_is_prefix(rest, end - start);
        let kept = rest.subrange(0, end - start);
        assert(kept =~= s@.subrange(start as int, end as int));
        if kept.len() > 0 {
            assert(kept.last() == s@[end - 1]);
        }
    }
    slice_chars(s, start, end)
}

/// `char::to_ascii_lowercase`.
pub fn ascii_lower_of(c: char) -> (lower: char)
    ensures
        lower == ascii_lower_char(c),
{
    if c >= 'A' && c <= 'Z' {
        let code = (c as u8) + 32;
        proof {
            assert((c as u32) + 32 == code as u32);
        }
        code as char
    } else {
        c
    }
}

/// `str::to_ascii_lowercase` over characters.
pub fn ascii_lower_chars(s: &Vec<char>) -> (lower: Vec<char>)
    ensures
        lower@ == ascii_lower(s@),
{
    let mut lower: Vec<char> = Vec::new();
    let mut k: usize = 0;
    while k < s.len()
        invariant
            k <= s@.len(),
            lower@ == ascii_lower(s@.subrange(0, k as int)),
        decreases s@.len() - k,
    {
        lower.push(ascii_lower_of(s[k]));
        k = k + 1;
        assert(lower@ =~= ascii_lower(s@.subrange(0, k as int)));
    }
    assert(s@.subrange(0, s@.len() as int) =~= s@);
    lower
}

} // verus!
