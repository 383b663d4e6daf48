//! Character and string helpers shared by the policy modules. Strings are
//! reasoned about through their `Seq<char>` views.
use vstd::prelude::*;

verus! {

/// ASCII lowercase of one character; other characters are unchanged.
pub open spec fn ascii_lower(c: char) -> char {
    if 'A' <= c && c <= 'Z' {
        ((c as u32) + 32) as char
    } else {
        c
    }
}

/// ASCII lowercase of every character of a sequence.
pub open spec fn ascii_lower_seq(s: Seq<char>) -> Seq<char> {
    s.map_values(|c: char| ascii_lower(c))
}

/// Case-insensitive equality over ASCII letters.
pub open spec fn eq_ignore_ascii_case_spec(a: Seq<char>, b: Seq<char>) -> bool {
    ascii_lower_seq(a) == ascii_lower_seq(b)
}

/// The Unicode general category Cc: U+0000..=U+001F and U+007F..=U+009F.
pub open spec fn is_control_spec(c: char) -> bool {
    c <= '\u{1f}' || ('\u{7f}' <= c && c <= '\u{9f}')
}

/// The Unicode White_Space property.
pub open spec fn is_whitespace_spec(c: char) -> bool {
    ||| ('\u{9}' <= c && c <= '\u{d}')
    ||| c == ' '
    ||| c == '\u{85}'
    ||| c == '\u{a0}'
    ||| c == '\u{1680}'
    ||| ('\u{2000}' <= c && c <= '\u{200a}')
    ||| c == '\u{2028}'
    ||| c == '\u{2029}'
    ||| c == '\u{202f}'
    ||| c == '\u{205f}'
    ||| c == '\u{3000}'
}

/// A sequence has no control character.
pub open spec fn no_control(s: Seq<char>) -> bool {
    forall|i: int| 0 <= i < s.len() ==> !is_control_spec(#[trigger] s[i])
}

/// Index of the first non-whitespace character (or the length).
pub open spec fn trim_start_index(s: Seq<char>) -> int
    decreases s.len(),
{
    if s.len() == 0 {
        0
    } else if is_whitespace_spec(s[0]) {
        1 + trim_start_index(s.drop_first())
    } else {
        0
    }
}

/// Index one past the last non-whitespace character (or 0).
pub open spec fn trim_end_index(s: Seq<char>) -> int
    decreases s.len(),
{
    if s.len() == 0 {
        0
    } else if is_whitespace_spec(s.last()) {
        trim_end_index(s.drop_last())
    } else {
        s.len() as int
    }
}

/// `s` without leading and trailing whitespace.
pub open spec fn trim_spec(s: Seq<char>) -> Seq<char> {
    let end = trim_end_index(s);
    let start = trim_start_index(s.subrange(0, end));
    s.subrange(0, end).subrange(start, end)
}

pub open spec fn starts_with_spec<T>(s: Seq<T>, prefix: Seq<T>) -> bool {
    prefix.len() <= s.len() && s.subrange(0, prefix.len() as int) == prefix
}

/// `needle` occurs in `s` starting at index `i`.
pub open spec fn occurs_at<T>(s: Seq<T>, needle: Seq<T>, i: int) -> bool {
    0 <= i && i + needle.len() <= s.len() && s.subrange(i, i + needle.len()) == needle
}

pub open spec fn contains_seq<T>(s: Seq<T>, needle: Seq<T>) -> bool {
    exists|i: int| occurs_at(s, needle, i)
}

/// Decimal digits of a natural number, most significant first.
pub open spec fn decimal(n: nat) -> Seq<char>
    decreases n,
{
    if n < 10 {
        seq![digit_char(n)]
    } else {
        decimal(n / 10).push(digit_char(n % 10))
    }
}

pub open spec fn digit_char(d: nat) -> char {
    (('0' as nat) + d) as char
}

pub fn to_ascii_lower(c: char) -> (r: char)
    ensures
        r == ascii_lower(c),
{
    if 'A' <= c && c <= 'Z' {
        let v: u32 = (c as u32) + 32;
        char_from_ascii_code(v)
    } else {
        c
    }
}

pub fn char_from_ascii_code(v: u32) -> (r: char)
    requires
        v < 128,
    ensures
        r == v as char,
{
    (v as u8) as char
}

pub fn is_control(c: char) -> (r: bool)
    ensures
        r == is_control_spec(c),
{
    c <= '\u{1f}' || ('\u{7f}' <= c && c <= '\u{9f}')
}

pub fn is_whitespace(c: char) -> (r: bool)
    ensures
        r == is_whitespace_spec(c),
{
    ('\u{9}' <= c && c <= '\u{d}') || c == ' ' || c == '\u{85}' || c == '\u{a0}' || c
        == '\u{1680}' || ('\u{2000}' <= c && c <= '\u{200a}') || c == '\u{2028}' || c
        == '\u{2029}' || c == '\u{202f}' || c == '\u{205f}' || c == '\u{3000}'
}

/// The characters of a string slice, in order.
pub fn chars_of(s: &str) -> (v: Vec<char>)
    ensures
        v@ == s@,
{
    let mut v: Vec<char> = Vec::new();
    for c in it: s.chars()
        invariant
            v@ == it.seq().subrange(0, it.index() as int),
            it.seq() == s@,
    {
        v.push(c);
    }
    v
}

/// Appends one character to a string (`String::push`).
#[verifier::external_body]
pub fn push_char(s: &mut String, c: char)
    ensures
        final(s)@ == old(s)@.push(c),
{
    s.push(c);
}

/// A string holding exactly the given characters.
pub fn string_of(cs: &[char]) -> (s: String)
    ensures
        s@ == cs@,
{
    let mut s = String::new();
    let mut i: usize = 0;
    while i < cs.len()
        invariant
            i <= cs.len(),
            s@ == cs@.subrange(0, i as int),
        decreases cs.len() - i,
    {
        push_char(&mut s, cs[i]);
        i += 1;
    }
    s
}

pub fn copy_string(s: &str) -> (r: String)
    ensures
        r@ == s@,
{
    s.to_owned()
}

pub fn any_control(s: &[char]) -> (r: bool)
    ensures
        r == !no_control(s@),
{
    let mut i: usize = 0;
    while i < s.len()
        invariant
            i <= s.len(),
            forall|j: int| 0 <= j < i ==> !is_control_spec(#[trigger] s@[j]),
        decreases s.len() - i,
    {
        if is_control(s[i]) {
            return true;
        }
        i += 1;
    }
    false
}

pub fn seq_eq(a: &[char], b: &[char]) -> (r: bool)
    ensures
        r == (a@ == b@),
{
    if a.len() != b.len() {
        return false;
    }
    let mut i: usize = 0;
    while i < a.len()
        invariant
            i <= a.len(),
            a.len() == b.len(),
            forall|j: int| 0 <= j < i ==> a@[j] == b@[j],
        decreases a.len() - i,
    {
        if a[i] != b[i] {
            return false;
        }
        i += 1;
    }
    assert(a@ =~= b@);
    true
}

pub fn str_eq(a: &str, b: &str) -> (r: bool)
    ensures
        r == (a@ == b@),
{
    let x = chars_of(a);
    let y = chars_of(b);
    seq_eq(x.as_slice(), y.as_slice())
}

pub fn starts_with(s: &[char], prefix: &[char]) -> (r: bool)
    ensures
        r == starts_with_spec(s@, prefix@),
{
    if prefix.len() > s.len() {
        return false;
    }
    let mut i: usize = 0;
    while i < prefix.len()
        invariant
            i <= prefix.len() <= s.len(),
            forall|j: int| 0 <= j < i ==> s@[j] == prefix@[j],
        decreases prefix.len() - i,
    {
        if s[i] != prefix[i] {
            assert(s@.subrange(0, prefix.len() as int)[i as int] != prefix@[i as int]);
            return false;
        }
        i += 1;
    }
    assert(s@.subrange(0, prefix.len() as int) =~= prefix@);
    true
}

pub fn bytes_start_with(s: &[u8], prefix: &[u8]) -> (r: bool)
    ensures
        r == starts_with_spec(s@, prefix@),
{
    if prefix.len() > s.len() {
        return false;
    }
    let mut i: usize = 0;
    while i < prefix.len()
        invariant
            i <= prefix.len() <= s.len(),
            forall|j: int| 0 <= j < i ==> s@[j] == prefix@[j],
        decreases prefix.len() - i,
    {
        if s[i] != prefix[i] {
            assert(s@.subrange(0, prefix.len() as int)[i as int] != prefix@[i as int]);
            return false;
        }
        i += 1;
    }
    assert(s@.subrange(0, prefix.len() as int) =~= prefix@);
    true
}

/// Whether `needle` occurs in `s` at index `at`.
pub fn matches_at(s: &[char], needle: &[char], at: usize) -> (r: bool)
    ensures
        r == occurs_at(s@, needle@, at as int),
{
    if at > s.len() || needle.len() > s.len() - at {
        return false;
    }
    let mut i: usize = 0;
    while i < needle.len()
        invariant
            i <= needle.len(),
            at + needle.len() <= s.len(),
            forall|j: int| 0 <= j < i ==> s@[at + j] == needle@[j],
        decreases needle.len() - i,
    {
        if s[at + i] != needle[i] {
            assert(s@.subrange(at as int, at + needle.len())[i as int] != needle@[i as int]);
            return false;
        }
        i += 1;
    }
    assert(s@.subrange(at as int, at + needle.len()) =~= needle@);
    true
}

/// Index of the first occurrence of `needle` in `s`.
pub fn find(s: &[char], needle: &[char]) -> (r: Option<usize>)
    ensures
        match r {
            Some(i) => occurs_at(s@, needle@, i as int) && forall|j: int|
                0 <= j < i ==> !occurs_at(s@, needle@, j),
            None => !contains_seq(s@, needle@),
        },
{
    let mut i: usize = 0;
    loop
        invariant
            i <= s.len(),
            forall|j: int| 0 <= j < i ==> !occurs_at(s@, needle@, j),
        decreases s.len() - i,
    {
        if matches_at(s, needle, i) {
            return Some(i);
        }
        if i == s.len() {
            assert forall|j: int| !occurs_at(s@, needle@, j) by {
                if 0 <= j && j < i {
                }
            }
            return None;
        }
        i += 1;
    }
}

pub fn contains(s: &[char], needle: &[char]) -> (r: bool)
    ensures
        r == contains_seq(s@, needle@),
{
    find(s, needle).is_some()
}

pub fn eq_ignore_ascii_case(a: &[char], b: &[char]) -> (r: bool)
    ensures
        r == eq_ignore_ascii_case_spec(a@, b@),
{
    if a.len() != b.len() {
        assert(ascii_lower_seq(a@).len() != ascii_lower_seq(b@).len());
        return false;
    }
    let mut i: usize = 0;
    while i < a.len()
        invariant
            i <= a.len(),
            a.len() == b.len(),
            forall|j: int| 0 <= j < i ==> ascii_lower(a@[j]) == ascii_lower(b@[j]),
        decreases a.len() - i,
    {
        if to_ascii_lower(a[i]) != to_ascii_lower(b[i]) {
            assert(ascii_lower_seq(a@)[i as int] != ascii_lower_seq(b@)[i as int]);
            return false;
        }
        i += 1;
    }
    assert(ascii_lower_seq(a@) =~= ascii_lower_seq(b@));
    true
}

pub fn lower_ascii(s: &[char]) -> (r: Vec<char>)
    ensures
        r@ == ascii_lower_seq(s@),
{
    let mut r: Vec<char> = Vec::new();
    let mut i: usize = 0;
    while i < s.len()
        invariant
            i <= s.len(),
            r@ == ascii_lower_seq(s@.subrange(0, i as int)),
        decreases s.len() - i,
    {
        r.push(to_ascii_lower(s[i]));
        i += 1;
        assert(ascii_lower_seq(s@.subrange(0, i as int)) =~= ascii_lower_seq(
            s@.subrange(0, i - 1),
        ).push(ascii_lower(s@[i - 1])));
    }
    assert(s@.subrange(0, s.len() as int) =~= s@);
    r
}

pub proof fn lemma_trim_start_bounds(s: Seq<char>)
    ensures
        0 <= trim_start_index(s) <= s.len(),
        forall|j: int| 0 <= j < trim_start_index(s) ==> is_whitespace_spec(#[trigger] s[j]),
        trim_start_index(s) < s.len() ==> !is_whitespace_spec(s[trim_start_index(s)]),
    decreases s.len(),
{
    if s.len() > 0 && is_whitespace_spec(s[0]) {
        lemma_trim_start_bounds(s.drop_first());
        assert forall|j: int| 0 <= j < trim_start_index(s) implies is_whitespace_spec(
            #[trigger] s[j],
        ) by {
            if j > 0 {
                assert(s[j] == s.drop_first()[j - 1]);
            }
        }
    }
}

pub proof fn lemma_trim_end_bounds(s: Seq<char>)
    ensures
        0 <= trim_end_index(s) <= s.len(),
        forall|j: int| trim_end_index(s) <= j < s.len() ==> is_whitespace_spec(#[trigger] s[j]),
        trim_end_index(s) > 0 ==> !is_whitespace_spec(s[trim_end_index(s) - 1]),
    decreases s.len(),
{
    if s.len() > 0 && is_whitespace_spec(s.last()) {
        lemma_trim_end_bounds(s.drop_last());
        assert forall|j: int| trim_end_index(s) <= j < s.len() implies is_whitespace_spec(
            #[trigger] s[j],
        ) by {
            if j < s.len() - 1 {
                assert(s[j] == s.drop_last()[j]);
            }
        }
    }
}

pub proof fn lemma_trim_start_unique(s: Seq<char>, k: int)
    requires
        0 <= k <= s.len(),
        forall|j: int| 0 <= j < k ==> is_whitespace_spec(#[trigger] s[j]),
        k < s.len() ==> !is_whitespace_spec(s[k]),
    ensures
        trim_start_index(s) == k,
    decreases s.len(),
{
    if k > 0 {
        assert(is_whitespace_spec(s[0]));
        assert forall|j: int| 0 <= j < k - 1 implies is_whitespace_spec(
            #[trigger] s.drop_first()[j],
        ) by {
            assert(s.drop_first()[j] == s[j + 1]);
        }
        if k - 1 < s.len() - 1 {
            assert(s.drop_first()[k - 1] == s[k]);
        }
        lemma_trim_start_unique(s.drop_first(), k - 1);
    }
}

pub proof fn lemma_trim_end_unique(s: Seq<char>, k: int)
    requires
        0 <= k <= s.len(),
        forall|j: int| k <= j < s.len() ==> is_whitespace_spec(#[trigger] s[j]),
        k > 0 ==> !is_whitespace_spec(s[k - 1]),
    ensures
        trim_end_index(s) == k,
    decreases s.len(),
{
    if k < s.len() {
        assert(is_whitespace_spec(s[s.len() - 1]));
        assert forall|j: int| k <= j < s.len() - 1 implies is_whitespace_spec(
            #[trigger] s.drop_last()[j],
        ) by {
            assert(s.drop_last()[j] == s[j]);
        }
        if k > 0 {
            assert(s.drop_last()[k - 1] == s[k - 1]);
        }
        lemma_trim_end_unique(s.drop_last(), k);
    }
}

/// `s` without leading and trailing Unicode whitespace (`str::trim`).
pub fn trim(s: &[char]) -> (r: Vec<char>)
    ensures
        r@ == trim_spec(s@),
{
    let mut end: usize = s.len();
    while end > 0 && is_whitespace(s[end - 1])
        invariant
            end <= s.len(),
            forall|j: int| end <= j < s.len() ==> is_whitespace_spec(#[trigger] s@[j]),
        decreases end,
    {
        end -= 1;
    }
    proof {
        lemma_trim_end_unique(s@, end as int);
    }
    let mut start: usize = 0;
    while start < end && is_whitespace(s[start])
        invariant
            start <= end <= s.len(),
            forall|j: int| 0 <= j < start ==> is_whitespace_spec(#[trigger] s@[j]),
        decreases end - start,
    {
        start += 1;
    }
    proof {
        let t = s@.subrange(0, end as int);
        assert forall|j: int| 0 <= j < start implies is_whitespace_spec(#[trigger] t[j]) by {
            assert(t[j] == s@[j]);
        }
        if start < end {
            assert(t[start as int] == s@[start as int]);
        }
        lemma_trim_start_unique(t, start as int);
    }
    let mut r: Vec<char> = Vec::new();
    let mut i: usize = start;
    while i < end
        invariant
            start <= i <= end <= s.len(),
            r@ == s@.subrange(start as int, i as int),
        decreases end - i,
    {
        r.push(s[i]);
        i += 1;
        assert(s@.subrange(start as int, i as int) =~= s@.subrange(start as int, i - 1).push(
            s@[i - 1],
        ));
    }
    assert(s@.subrange(0, end as int).subrange(start as int, end as int) =~= s@.subrange(
        start as int,
        end as int,
    ));
    r
}

proof fn lemma_decimal_len(n: nat)
    ensures
        decimal(n).len() >= 1,
        forall|i: int| 0 <= i < decimal(n).len() ==> '0' <= #[trigger] decimal(n)[i] <= '9',
    decreases n,
{
    if n >= 10 {
        lemma_decimal_len(n / 10);
    }
}

/// Decimal rendering of an unsigned integer (as `u64::to_string`).
pub fn u64_to_decimal(n: u64) -> (r: Vec<char>)
    ensures
        r@ == decimal(n as nat),
    decreases n,
{
    if n < 10 {
        let c = char_from_ascii_code(48 + n as u32);
        let mut v: Vec<char> = Vec::new();
        v.push(c);
        assert(v@ =~= seq![digit_char(n as nat)]);
        v
    } else {
        let mut v = u64_to_decimal(n / 10);
        let c = char_from_ascii_code(48 + (n % 10) as u32);
        v.push(c);
        v
    }
}

} // verus!

verus! {

/// Index of the first occurrence of `c` in `s`.
pub open spec fn first_index_of(s: Seq<char>, c: char) -> Option<int>
    decreases s.len(),
{
    if s.len() == 0 {
        None
    } else if s[0] == c {
        Some(0)
    } else {
        match first_index_of(s.drop_first(), c) {
            Some(i) => Some(i + 1),
            None => None,
        }
    }
}

pub proof fn lemma_first_index_bounds(s: Seq<char>, c: char)
    ensures
        match first_index_of(s, c) {
            Some(i) => 0 <= i < s.len() && s[i] == c && forall|j: int| 0 <= j < i ==> s[j] != c,
            None => forall|j: int| 0 <= j < s.len() ==> s[j] != c,
        },
    decreases s.len(),
{
    if s.len() > 0 && s[0] != c {
        lemma_first_index_bounds(s.drop_first(), c);
        match first_index_of(s.drop_first(), c) {
            Some(i) => {
                assert forall|j: int| 0 <= j < i + 1 implies s[j] != c by {
                    if j > 0 {
                        assert(s[j] == s.drop_first()[j - 1]);
                    }
                }
            },
            None => {
                assert forall|j: int| 0 <= j < s.len() implies s[j] != c by {
                    if j > 0 {
                        assert(s[j] == s.drop_first()[j - 1]);
                    }
                }
            },
        }
    }
}

/// `first_index_of` is determined by the first position holding `c`.
pub proof fn lemma_first_index_is(s: Seq<char>, c: char, k: int)
    requires
        0 <= k <= s.len(),
        forall|j: int| 0 <= j < k ==> s[j] != c,
        k < s.len() ==> s[k] == c,
    ensures
        first_index_of(s, c) == (if k < s.len() {
            Some(k)
        } else {
            None::<int>
        }),
    decreases s.len(),
{
    if s.len() > 0 && k > 0 {
        assert(s[0] != c);
        assert forall|j: int| 0 <= j < k - 1 implies s.drop_first()[j] != c by {
            assert(s.drop_first()[j] == s[j + 1]);
        }
        if k < s.len() {
            assert(s.drop_first()[k - 1] == s[k]);
        }
        lemma_first_index_is(s.drop_first(), c, k - 1);
    }
}

/// `str::split` on one separator character: the pieces between separators,
/// including empty ones.
pub open spec fn split_on(s: Seq<char>, sep: char) -> Seq<Seq<char>>
    decreases s.len(),
{
    match first_index_of(s, sep) {
        None => seq![s],
        Some(i) => if 0 <= i < s.len() {
            seq![s.subrange(0, i)] + split_on(s.subrange(i + 1, s.len() as int), sep)
        } else {
            seq![s]
        },
    }
}

/// Characters `from..to` of a slice.
pub fn copy_range(s: &[char], from: usize, to: usize) -> (r: Vec<char>)
    requires
        from <= to <= s.len(),
    ensures
        r@ == s@.subrange(from as int, to as int),
{
    let mut r: Vec<char> = Vec::new();
    let mut i: usize = from;
    while i < to
        invariant
            from <= i <= to <= s.len(),
            r@ == s@.subrange(from as int, i as int),
        decreases to - i,
    {
        r.push(s[i]);
        i += 1;
        assert(s@.subrange(from as int, i as int) =~= s@.subrange(from as int, i - 1).push(
            s@[i - 1],
        ));
    }
    r
}

/// Position of the first `c` at or after `from`, or `s.len()`.
pub fn scan_to(s: &[char], from: usize, c: char) -> (k: usize)
    requires
        from <= s.len(),
    ensures
        from <= k <= s.len(),
        forall|j: int| from <= j < k ==> s@[j] != c,
        k < s.len() ==> s@[k as int] == c,
{
    let mut k = from;
    while k < s.len() && s[k] != c
        invariant
            from <= k <= s.len(),
            forall|j: int| from <= j < k ==> s@[j] != c,
        decreases s.len() - k,
    {
        k += 1;
    }
    k
}

/// The first occurrence of `c`.
pub fn find_char(s: &[char], c: char) -> (r: Option<usize>)
    ensures
        match r {
            Some(i) => first_index_of(s@, c) == Some(i as int),
            None => first_index_of(s@, c) is None,
        },
{
    let k = scan_to(s, 0, c);
    proof {
        lemma_first_index_is(s@, c, k as int);
    }
    if k < s.len() {
        Some(k)
    } else {
        None
    }
}

} // verus!

verus! {

/// Appends the characters of `s`.
pub fn push_str(v: &mut Vec<char>, s: &str)
    ensures
        final(v)@ == old(v)@ + s@,
{
    let mut t = chars_of(s);
    v.append(&mut t);
}

/// Appends the decimal digits of `n`.
pub fn push_decimal(v: &mut Vec<char>, n: u64)
    ensures
        final(v)@ == old(v)@ + decimal(n as nat),
{
    let mut t = u64_to_decimal(n);
    v.append(&mut t);
}

} // verus!

verus! {

/// Lexicographic order of character sequences by code point, which is the
/// byte order of their UTF-8 encodings (the order of `str` and `String`).
pub open spec fn lex_lt(a: Seq<char>, b: Seq<char>) -> bool
    decreases a.len(),
{
    if a.len() == 0 {
        b.len() > 0
    } else if b.len() == 0 {
        false
    } else if a[0] < b[0] {
        true
    } else if a[0] == b[0] {
        lex_lt(a.drop_first(), b.drop_first())
    } else {
        false
    }
}

pub proof fn lemma_lex_irreflexive(a: Seq<char>)
    ensures
        !lex_lt(a, a),
    decreases a.len(),
{
    if a.len() > 0 {
        lemma_lex_irreflexive(a.drop_first());
    }
}

pub proof fn lemma_lex_transitive(a: Seq<char>, b: Seq<char>, c: Seq<char>)
    requires
        lex_lt(a, b),
        lex_lt(b, c),
    ensures
        lex_lt(a, c),
    decreases a.len(),
{
    if a.len() > 0 && b.len() > 0 && c.len() > 0 && a[0] == b[0] && b[0] == c[0] {
        lemma_lex_transitive(a.drop_first(), b.drop_first(), c.drop_first());
    }
}

pub proof fn lemma_lex_total(a: Seq<char>, b: Seq<char>)
    requires
        a != b,
    ensures
        lex_lt(a, b) || lex_lt(b, a),
    decreases a.len(),
{
    if a.len() > 0 && b.len() > 0 && a[0] == b[0] {
        if a.drop_first() == b.drop_first() {
            assert(a =~= seq![a[0]] + a.drop_first());
            assert(b =~= seq![b[0]] + b.drop_first());
        }
        lemma_lex_total(a.drop_first(), b.drop_first());
    } else if a.len() == 0 && b.len() == 0 {
        assert(a =~= b);
    }
}

pub proof fn lemma_lex_asymmetric(a: Seq<char>, b: Seq<char>)
    requires
        lex_lt(a, b),
    ensures
        !lex_lt(b, a),
    decreases a.len(),
{
    if a.len() > 0 && b.len() > 0 && a[0] == b[0] {
        lemma_lex_asymmetric(a.drop_first(), b.drop_first());
    }
}

/// `a` comes before `b` in the order of `lex_lt`.
pub fn lex_less(a: &[char], b: &[char]) -> (r: bool)
    ensures
        r == lex_lt(a@, b@),
{
    let mut i: usize = 0;
    assert(a@.subrange(0, a.len() as int) =~= a@);
    assert(b@.subrange(0, b.len() as int) =~= b@);
    while i < a.len() && i < b.len() && a[i] == b[i]
        invariant
            i <= a.len(),
            i <= b.len(),
            a@.subrange(0, i as int) == b@.subrange(0, i as int),
            lex_lt(a@, b@) == lex_lt(a@.subrange(i as int, a.len() as int), b@.subrange(i as int, b.len() as int)),
        decreases a.len() - i,
    {
        let ghost x = a@.subrange(i as int, a.len() as int);
        let ghost y = b@.subrange(i as int, b.len() as int);
        assert(x.drop_first() =~= a@.subrange(i + 1, a.len() as int));
        assert(y.drop_first() =~= b@.subrange(i + 1, b.len() as int));
        assert(a@.subrange(0, i + 1) =~= a@.subrange(0, i as int).push(a@[i as int]));
        assert(b@.subrange(0, i + 1) =~= b@.subrange(0, i as int).push(b@[i as int]));
        i += 1;
    }
    if i == a.len() {
        i < b.len()
    } else if i == b.len() {
        false
    } else {
        a[i] < b[i]
    }
}

} // verus!

verus! {

pub open spec fn char_views(v: Seq<Vec<char>>) -> Seq<Seq<char>> {
    v.map_values(|x: Vec<char>| x@)
}

fn split_from(h: &[char], start: usize, sep: char) -> (r: Vec<Vec<char>>)
    requires
        start <= h.len(),
    ensures
        char_views(r@) == split_on(h@.subrange(start as int, h.len() as int), sep),
    decreases h.len() - start,
{
    let ghost rest = h@.subrange(start as int, h.len() as int);
    let k = scan_to(h, start, sep);
    proof {
        assert forall|j: int| 0 <= j < k - start implies rest[j] != sep by {
            assert(rest[j] == h@[start + j]);
        }
        if k < h.len() {
            assert(rest[k - start] == h@[k as int]);
        }
        lemma_first_index_is(rest, sep, k - start);
    }
    let piece = copy_range(h, start, k);
    assert(rest.subrange(0, k - start) =~= h@.subrange(start as int, k as int));
    let mut out: Vec<Vec<char>> = Vec::new();
    out.push(piece);
    if k == h.len() {
        proof {
            assert(rest.subrange(0, k - start) =~= rest);
            assert(char_views(out@) =~= seq![rest]);
        }
        return out;
    }
    let mut later = split_from(h, k + 1, sep);
    let ghost first = out@;
    let ghost later_v = later@;
    out.append(&mut later);
    proof {
        assert(rest.subrange(k - start + 1, rest.len() as int) =~= h@.subrange(k + 1, h.len() as int));
        assert(out@ =~= first + later_v);
        assert(char_views(out@) =~= char_views(first) + char_views(later_v));
        assert(char_views(first) =~= seq![rest.subrange(0, k - start)]);
    }
    out
}

/// `str::split` on one character, as character vectors.
pub fn split_all(s: &[char], sep: char) -> (r: Vec<Vec<char>>)
    ensures
        char_views(r@) == split_on(s@, sep),
{
    assert(s@.subrange(0, s.len() as int) =~= s@);
    split_from(s, 0, sep)
}

proof fn lemma_split_on_nonempty(s: Seq<char>, sep: char)
    ensures
        split_on(s, sep).len() >= 1,
    decreases s.len(),
{
    lemma_first_index_bounds(s, sep);
    match first_index_of(s, sep) {
        Some(i) => {
            lemma_split_on_nonempty(s.subrange(i + 1, s.len() as int), sep);
        },
        None => {},
    }
}

pub proof fn lemma_split_nonempty(s: Seq<char>, sep: char)
    ensures
        split_on(s, sep).len() >= 1,
{
    lemma_split_on_nonempty(s, sep);
}

} // verus!

verus! {

/// Trimming twice is trimming once.
pub proof fn lemma_trim_idempotent(s: Seq<char>)
    ensures
        trim_spec(trim_spec(s)) == trim_spec(s),
{
    let end = trim_end_index(s);
    lemma_trim_end_bounds(s);
    let u = s.subrange(0, end);
    let start = trim_start_index(u);
    lemma_trim_start_bounds(u);
    let t = u.subrange(start, end);
    if t.len() == 0 {
        assert(trim_end_index(t) == 0);
        assert(t.subrange(0, 0) =~= t);
    } else {
        assert(t[0] == u[start]);
        assert(t.last() == s[end - 1]);
        lemma_trim_end_unique(t, t.len() as int);
        assert(t.subrange(0, t.len() as int) =~= t);
        lemma_trim_start_unique(t, 0);
        assert(t.subrange(0, t.len() as int).subrange(0, t.len() as int) =~= t);
    }
}

/// The pieces of a split never hold the separator.
pub proof fn lemma_split_pieces_free(s: Seq<char>, sep: char)
    ensures
        forall|i: int| 0 <= i < split_on(s, sep).len() ==> !(#[trigger] split_on(s, sep)[i]).contains(sep),
    decreases s.len(),
{
    lemma_first_index_bounds(s, sep);
    match first_index_of(s, sep) {
        Some(i) => {
            let head = s.subrange(0, i);
            let rest = s.subrange(i + 1, s.len() as int);
            lemma_split_pieces_free(rest, sep);
            assert forall|j: int| 0 <= j < split_on(s, sep).len() implies !(#[trigger] split_on(s, sep)[j]).contains(sep) by {
                if j == 0 {
                    assert(split_on(s, sep)[0] == head);
                    if head.contains(sep) {
                        let k = choose|k: int| 0 <= k < head.len() && head[k] == sep;
                        assert(s[k] == sep);
                    }
                } else {
                    assert(split_on(s, sep)[j] == split_on(rest, sep)[j - 1]);
                }
            }
        },
        None => {
            assert(split_on(s, sep) == seq![s]);
            assert forall|j: int| 0 <= j < split_on(s, sep).len() implies !(#[trigger] split_on(s, sep)[j]).contains(sep) by {
                if s.contains(sep) {
                    let k = choose|k: int| 0 <= k < s.len() && s[k] == sep;
                }
            }
        },
    }
}

/// A text without the separator splits into itself alone.
pub proof fn lemma_split_without_sep(s: Seq<char>, sep: char)
    requires
        !s.contains(sep),
    ensures
        split_on(s, sep) == seq![s],
{
    lemma_first_index_bounds(s, sep);
    if first_index_of(s, sep) is Some {
        let i = first_index_of(s, sep)->0;
        assert(s[i] == sep);
        assert(s.contains(sep));
    }
}

} // verus!

verus! {

/// Splitting around a separator splits each side.
pub proof fn lemma_split_concat(a: Seq<char>, b: Seq<char>, sep: char)
    ensures
        split_on(a + seq![sep] + b, sep) == split_on(a, sep) + split_on(b, sep),
    decreases a.len(),
{
    let w = a + seq![sep] + b;
    lemma_first_index_bounds(a, sep);
    match first_index_of(a, sep) {
        Some(i) => {
            assert forall|j: int| 0 <= j < i implies w[j] != sep by {
                assert(w[j] == a[j]);
            }
            assert(w[i] == a[i]);
            lemma_first_index_is(w, sep, i);
            let a2 = a.subrange(i + 1, a.len() as int);
            assert(w.subrange(i + 1, w.len() as int) =~= a2 + seq![sep] + b);
            assert(w.subrange(0, i) =~= a.subrange(0, i));
            lemma_split_concat(a2, b, sep);
            assert(split_on(w, sep) =~= split_on(a, sep) + split_on(b, sep));
        },
        None => {
            assert forall|j: int| 0 <= j < a.len() implies w[j] != sep by {
                assert(w[j] == a[j]);
            }
            assert(w[a.len() as int] == sep);
            lemma_first_index_is(w, sep, a.len() as int);
            assert(w.subrange(a.len() as int + 1, w.len() as int) =~= b);
            assert(w.subrange(0, a.len() as int) =~= a);
            assert(split_on(a, sep) == seq![a]);
            assert(split_on(w, sep) =~= split_on(a, sep) + split_on(b, sep));
        },
    }
}

} // verus!
