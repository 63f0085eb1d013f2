//! Character-level helpers: decimal numbers, ASCII case folding and substring search.
use vstd::prelude::*;

verus! {

broadcast use vstd::string::group_string_axioms;

/// Appends one character (`String::push`).
#[verifier::external_body]
pub(crate) fn string_push(s: &mut String, c: char)
    ensures
        final(s)@ == old(s)@.push(c),
{
    s.push(c);
}

/// Equality of two string slices, character by character.
pub(crate) fn str_eq(a: &str, b: &str) -> (r: bool)
    ensures
        r == (a@ == b@),
{
    let ca = chars_of(a);
    let cb = chars_of(b);
    if ca.len() != cb.len() {
        return false;
    }
    let mut i: usize = 0;
    while i < ca.len()
        invariant
            ca@ == a@,
            cb@ == b@,
            ca@.len() == cb@.len(),
            0 <= i <= ca@.len(),
            forall|k: int| 0 <= k < i ==> ca@[k] == cb@[k],
        decreases ca@.len() - i,
    {
        if ca[i] != cb[i] {
            return false;
        }
        i += 1;
    }
    assert(ca@ =~= cb@);
    true
}

/// Characters of `s`, in order.
pub fn chars_of(s: &str) -> (r: Vec<char>)
    ensures
        r@ == s@,
{
    let mut out: Vec<char> = Vec::new();
    for c in it: s.chars()
        invariant
            out@ == it.seq().take(it.index() as int),
    {
        out.push(c);
    }
    assert(out@ =~= s@);
    out
}

/// A `String` holding `chars`.
pub fn string_from_chars(chars: &Vec<char>) -> (r: String)
    ensures
        r@ == chars@,
{
    let mut out = String::new();
    let mut i: usize = 0;
    while i < chars.len()
        invariant
            0 <= i <= chars.len(),
            out@ == chars@.take(i as int),
        decreases chars.len() - i,
    {
        string_push(&mut out, chars[i]);
        assert(chars@.take(i + 1) =~= chars@.take(i as int).push(chars@[i as int]));
        i += 1;
    }
    assert(chars@.take(chars.len() as int) =~= chars@);
    out
}

/// A copy of `s` (`str::to_owned`).
pub fn owned(s: &str) -> (r: String)
    ensures
        r@ == s@,
{
    s.to_owned()
}

/// Appends `tail` to `s`.
pub fn push_str(s: &mut String, tail: &str)
    ensures
        final(s)@ == old(s)@ + tail@,
{
    s.append(tail);
}

pub open spec fn digit_char(d: int) -> char {
    (48 + d) as char
}

pub open spec fn is_digit(c: char) -> bool {
    '0' <= c <= '9'
}

pub open spec fn digit_value(c: char) -> int {
    c as int - 48
}

/// Decimal representation of `n` (no sign, no leading zeros).
pub open spec fn decimal(n: nat) -> Seq<char>
    decreases n,
{
    if n < 10 {
        seq![digit_char(n as int)]
    } else {
        decimal(n / 10).push(digit_char((n % 10) as int))
    }
}

/// Value of a digit string read most-significant first.
pub open spec fn digits_value(s: Seq<char>) -> nat
    decreases s.len(),
{
    if s.len() == 0 {
        0
    } else {
        digits_value(s.drop_last()) * 10 + digit_value(s.last()) as nat
    }
}

pub open spec fn all_digits(s: Seq<char>) -> bool {
    forall|i: int| 0 <= i < s.len() ==> is_digit(#[trigger] s[i])
}

/// `s` without one optional leading `+`.
pub open spec fn unsigned_body(s: Seq<char>) -> Seq<char> {
    if s.len() > 0 && s[0] == '+' {
        s.drop_first()
    } else {
        s
    }
}

/// `usize` parsing of decimal text: an optional `+`, then one or more ASCII digits whose value
/// fits in `usize`.
pub open spec fn spec_parse_usize(s: Seq<char>) -> Option<usize> {
    let body = unsigned_body(s);
    if body.len() == 0 || !all_digits(body) || digits_value(body) > usize::MAX {
        None
    } else {
        Some(digits_value(body) as usize)
    }
}

fn digit_to_char(d: u64) -> (c: char)
    requires
        d < 10,
    ensures
        c == digit_char(d as int),
{
    let c = match d {
        0 => '0',
        1 => '1',
        2 => '2',
        3 => '3',
        4 => '4',
        5 => '5',
        6 => '6',
        7 => '7',
        8 => '8',
        _ => '9',
    };
    c
}

/// Appends the decimal digits of `n`.
pub fn push_decimal(out: &mut String, n: u64)
    ensures
        final(out)@ == old(out)@ + decimal(n as nat),
    decreases n,
{
    if n >= 10 {
        push_decimal(out, n / 10);
    }
    let c = digit_to_char(n % 10);
    string_push(out, c);
    proof {
        if n >= 10 {
            assert(decimal(n as nat) == decimal((n / 10) as nat).push(digit_char((n % 10) as int)));
        }
    }
}

/// Decimal text of `n` (`u64::to_string`).
pub fn u64_to_decimal(n: u64) -> (r: String)
    ensures
        r@ == decimal(n as nat),
{
    let mut out = String::new();
    push_decimal(&mut out, n);
    assert(out@ =~= decimal(n as nat));
    out
}

proof fn lemma_digits_value_bound(s: Seq<char>)
    requires
        all_digits(s),
    ensures
        digits_value(s) < pow10(s.len()),
    decreases s.len(),
{
    if s.len() > 0 {
        assert(all_digits(s.drop_last()));
        lemma_digits_value_bound(s.drop_last());
        assert(is_digit(s[s.len() - 1]));
    }
}

pub open spec fn pow10(k: nat) -> nat
    decreases k,
{
    if k == 0 {
        1
    } else {
        10 * pow10((k - 1) as nat)
    }
}

/// Parse decimal text as `usize` (`str::parse::<usize>`).
pub fn parse_usize(s: &str) -> (r: Option<usize>)
    ensures
        r == spec_parse_usize(s@),
{
    let chars = chars_of(s);
    let n = chars.len();
    let mut i: usize = 0;
    if n > 0 && chars[0] == '+' {
        i = 1;
    }
    let start = i;
    proof {
        assert(unsigned_body(s@) =~= chars@.subrange(start as int, n as int));
    }
    if start == n {
        return None;
    }
    let mut value: usize = 0;
    while i < n
        invariant
            chars@ == s@,
            n == chars@.len(),
            start <= i <= n,
            unsigned_body(s@) == chars@.subrange(start as int, n as int),
            all_digits(chars@.subrange(start as int, i as int)),
            value as nat == digits_value(chars@.subrange(start as int, i as int)),
        decreases n - i,
    {
        let c = chars[i];
        let ghost prefix = chars@.subrange(start as int, i as int);
        let ghost next = chars@.subrange(start as int, i + 1);
        proof {
            assert(next.drop_last() =~= prefix);
        }
        if !('0' <= c && c <= '9') {
            proof {
                assert(!is_digit(chars@.subrange(start as int, n as int)[i - start]));
            }
            return None;
        }
        let d = (c as u32 - 48) as usize;
        if value > (usize::MAX - d) / 10 {
            proof {
                assert(all_digits(next));
                assert(digits_value(next) == value * 10 + d);
                if all_digits(chars@.subrange(start as int, n as int)) {
                    lemma_digits_prefix_monotone(chars@.subrange(start as int, n as int), i + 1 - start);
                    assert(chars@.subrange(start as int, n as int).subrange(0, i + 1 - start) =~= next);
                }
            }
            return None;
        }
        value = value * 10 + d;
        i += 1;
    }
    assert(chars@.subrange(start as int, n as int) =~= unsigned_body(s@));
    Some(value)
}

/// `u64` parsing of decimal text (`str::parse::<u64>`): an optional `+`, then one or more
/// ASCII digits whose value fits in `u64`.
pub open spec fn spec_parse_u64(s: Seq<char>) -> Option<u64> {
    let body = unsigned_body(s);
    if body.len() == 0 || !all_digits(body) || digits_value(body) > u64::MAX {
        None
    } else {
        Some(digits_value(body) as u64)
    }
}

/// Parse decimal text as `u64` (`str::parse::<u64>`).
pub fn parse_u64(s: &str) -> (r: Option<u64>)
    ensures
        r == spec_parse_u64(s@),
{
    let chars = chars_of(s);
    let n = chars.len();
    let mut i: usize = 0;
    if n > 0 && chars[0] == '+' {
        i = 1;
    }
    let start = i;
    proof {
        assert(unsigned_body(s@) =~= chars@.subrange(start as int, n as int));
    }
    if start == n {
        return None;
    }
    let mut value: u64 = 0;
    while i < n
        invariant
            chars@ == s@,
            n == chars@.len(),
            start <= i <= n,
            unsigned_body(s@) == chars@.subrange(start as int, n as int),
            all_digits(chars@.subrange(start as int, i as int)),
            value as nat == digits_value(chars@.subrange(start as int, i as int)),
        decreases n - i,
    {
        let c = chars[i];
        let ghost prefix = chars@.subrange(start as int, i as int);
        let ghost next = chars@.subrange(start as int, i + 1);
        proof {
            assert(next.drop_last() =~= prefix);
        }
        if !('0' <= c && c <= '9') {
            proof {
                assert(!is_digit(chars@.subrange(start as int, n as int)[i - start]));
            }
            return None;
        }
        let d = (c as u32 - 48) as u64;
        if value > (u64::MAX - d) / 10 {
            proof {
                assert(all_digits(next));
                assert(digits_value(next) == value * 10 + d);
                if all_digits(chars@.subrange(start as int, n as int)) {
                    lemma_digits_prefix_monotone(chars@.subrange(start as int, n as int), i + 1 - start);
                    assert(chars@.subrange(start as int, n as int).subrange(0, i + 1 - start) =~= next);
                }
            }
            return None;
        }
        value = value * 10 + d;
        i += 1;
    }
    assert(chars@.subrange(start as int, n as int) =~= unsigned_body(s@));
    Some(value)
}

/// Decimal text of a `u64` parses back to it.
pub proof fn lemma_decimal_parse_u64_roundtrip(n: u64)
    ensures
        spec_parse_u64(decimal(n as nat)) == Some(n),
{
    lemma_decimal_digits(n as nat);
}

/// Digit strings never lose value when extended.
proof fn lemma_digits_prefix_monotone(s: Seq<char>, k: int)
    requires
        0 <= k <= s.len(),
        all_digits(s),
    ensures
        digits_value(s.subrange(0, k)) <= digits_value(s),
    decreases s.len() - k,
{
    if k < s.len() {
        lemma_digits_prefix_monotone(s, k + 1);
        assert(s.subrange(0, k + 1).drop_last() =~= s.subrange(0, k));
        assert(is_digit(s[k]));
    } else {
        assert(s.subrange(0, k) =~= s);
    }
}

proof fn lemma_decimal_digits(n: nat)
    ensures
        all_digits(decimal(n)),
        decimal(n).len() >= 1,
        digits_value(decimal(n)) == n,
        decimal(n)[0] != '+',
    decreases n,
{
    if n < 10 {
        assert(digit_value(digit_char(n as int)) == n);
        assert(seq![digit_char(n as int)].drop_last() =~= Seq::<char>::empty());
        assert(decimal(n) == seq![digit_char(n as int)]);
        assert(digits_value(decimal(n)) == digits_value(Seq::<char>::empty()) * 10 + digit_value(digit_char(n as int)));
    }
    if n >= 10 {
        lemma_decimal_digits(n / 10);
        let d = decimal(n / 10);
        let e = d.push(digit_char((n % 10) as int));
        assert(e.drop_last() =~= d);
        assert(digit_value(digit_char((n % 10) as int)) == n % 10);
        assert(e.last() == digit_char((n % 10) as int));
        assert(digits_value(e) == digits_value(d) * 10 + (n % 10));
        assert((n / 10) * 10 + n % 10 == n);
        assert(decimal(n) == e);
        assert forall|i: int| 0 <= i < e.len() implies is_digit(#[trigger] e[i]) by {
            if i < d.len() {
                assert(e[i] == d[i]);
            }
        }
    }
}

/// Decimal text is a non-empty run of ASCII digits.
pub proof fn lemma_decimal_is_digits(n: nat)
    ensures
        all_digits(decimal(n)),
        decimal(n).len() >= 1,
{
    lemma_decimal_digits(n);
}

/// Decimal text parses back to the same number.
pub proof fn lemma_decimal_parse_roundtrip(n: usize)
    ensures
        spec_parse_usize(decimal(n as nat)) == Some(n),
{
    lemma_decimal_digits(n as nat);
}

pub open spec fn ascii_lower(c: char) -> char {
    if 'A' <= c <= 'Z' {
        ((c as int) + 32) as char
    } else {
        c
    }
}

pub open spec fn lower_seq(s: Seq<char>) -> Seq<char> {
    s.map_values(|c: char| ascii_lower(c))
}

/// `needle` occurs in `hay` at position `i`.
pub open spec fn occurs_at(hay: Seq<char>, needle: Seq<char>, i: int) -> bool {
    0 <= i && i + needle.len() <= hay.len() && hay.subrange(i, i + needle.len()) == needle
}

pub open spec fn seq_contains(hay: Seq<char>, needle: Seq<char>) -> bool {
    exists|i: int| occurs_at(hay, needle, i)
}

fn lower_char(c: char) -> (r: char)
    ensures
        r == ascii_lower(c),
{
    if 'A' <= c && c <= 'Z' {
        let b = (c as u8) + 32;
        b as char
    } else {
        c
    }
}

fn lower_chars(s: &Vec<char>) -> (r: Vec<char>)
    ensures
        r@ == lower_seq(s@),
{
    let mut out: Vec<char> = Vec::new();
    let mut i: usize = 0;
    while i < s.len()
        invariant
            0 <= i <= s.len(),
            out@ == lower_seq(s@.take(i as int)),
        decreases s.len() - i,
    {
        out.push(lower_char(s[i]));
        assert(lower_seq(s@.take(i + 1)) =~= lower_seq(s@.take(i as int)).push(ascii_lower(s@[i as int])));
        i += 1;
    }
    assert(s@.take(s.len() as int) =~= s@);
    out
}

/// Whether `needle` occurs in `hay` (character sequences).
pub fn chars_contain(hay: &Vec<char>, needle: &Vec<char>) -> (r: bool)
    ensures
        r == seq_contains(hay@, needle@),
{
    let n = hay.len();
    let m = needle.len();
    if m > n {
        assert forall|i: int| !occurs_at(hay@, needle@, i) by {}
        return false;
    }
    if m == 0 {
        assert(hay@.subrange(0, 0) =~= needle@);
        assert(occurs_at(hay@, needle@, 0));
        return true;
    }
    let mut i: usize = 0;
    while i <= n - m
        invariant
            n == hay@.len(),
            m == needle@.len(),
            1 <= m <= n,
            0 <= i <= n - m + 1,
            forall|k: int| 0 <= k < i ==> !occurs_at(hay@, needle@, k),
        decreases n - m + 1 - i,
    {
        let mut j: usize = 0;
        let mut ok = true;
        while j < m
            invariant
                n == hay@.len(),
                m == needle@.len(),
                i + m <= n,
                0 <= j <= m,
                ok ==> forall|t: int| 0 <= t < j ==> hay@[i + t] == needle@[t],
                !ok ==> !occurs_at(hay@, needle@, i as int),
            decreases m - j,
        {
            if hay[i + j] != needle[j] {
                ok = false;
                assert(hay@.subrange(i as int, i + m)[j as int] != needle@[j as int]);
            }
            j += 1;
        }
        if ok {
            assert(hay@.subrange(i as int, i + m) =~= needle@);
            assert(occurs_at(hay@, needle@, i as int));
            return true;
        }
        i += 1;
    }
    assert forall|k: int| !occurs_at(hay@, needle@, k) by {
        if 0 <= k && k + m <= n {
            assert(k < i);
        }
    }
    false
}

/// `needle` occurs in `hay` ignoring ASCII case; the empty needle occurs everywhere.
pub open spec fn ci_contains(hay: Seq<char>, needle: Seq<char>) -> bool {
    needle.len() == 0 || seq_contains(lower_seq(hay), lower_seq(needle))
}

/// A substring of either part is a substring of the concatenation.
pub proof fn lemma_contains_concat(a: Seq<char>, b: Seq<char>, n: Seq<char>)
    requires
        seq_contains(a, n) || seq_contains(b, n),
    ensures
        seq_contains(a + b, n),
{
    if seq_contains(a, n) {
        let i = choose|i: int| occurs_at(a, n, i);
        assert((a + b).subrange(i, i + n.len()) =~= a.subrange(i, i + n.len()));
        assert(occurs_at(a + b, n, i));
    } else {
        let i = choose|i: int| occurs_at(b, n, i);
        assert((a + b).subrange(a.len() + i, a.len() + i + n.len()) =~= b.subrange(i, i + n.len()));
        assert(occurs_at(a + b, n, a.len() + i));
    }
}

/// A case-insensitive substring of either part is one of the concatenation.
pub proof fn lemma_ci_contains_concat(a: Seq<char>, b: Seq<char>, n: Seq<char>)
    requires
        ci_contains(a, n) || ci_contains(b, n),
    ensures
        ci_contains(a + b, n),
{
    if n.len() > 0 {
        assert(lower_seq(a + b) =~= lower_seq(a) + lower_seq(b));
        lemma_contains_concat(lower_seq(a), lower_seq(b), lower_seq(n));
    }
}

/// Every word of a space-joined list is a case-insensitive substring of it whenever the
/// needle is one of the word.
pub proof fn lemma_ci_contains_join_words(parts: Seq<Seq<char>>, i: int, n: Seq<char>)
    requires
        0 <= i < parts.len(),
        ci_contains(parts[i], n),
    ensures
        ci_contains(join_words(parts), n),
    decreases parts.len(),
{
    if parts.len() > 1 {
        if i < parts.len() - 1 {
            lemma_ci_contains_join_words(parts.drop_last(), i, n);
            lemma_ci_contains_concat(join_words(parts.drop_last()), " "@, n);
            lemma_ci_contains_concat(join_words(parts.drop_last()) + " "@, parts.last(), n);
        } else {
            lemma_ci_contains_concat(join_words(parts.drop_last()) + " "@, parts.last(), n);
        }
    }
}

/// Case-insensitive (ASCII) substring match; an empty needle always matches.
pub fn contains_ascii_case_insensitive(haystack: &str, needle: &str) -> (r: bool)
    ensures
        r == ci_contains(haystack@, needle@),
{
    if needle.is_empty() {
        return true;
    }
    let h = lower_chars(&chars_of(haystack));
    let n = lower_chars(&chars_of(needle));
    chars_contain(&h, &n)
}


// ---------------------------------------------------------------------------------------------
// Whitespace and trimming

/// Unicode `White_Space` (`char::is_whitespace`).
pub open spec fn is_ws(c: char) -> bool {
    ('\u{9}' <= c <= '\u{d}') || c == ' ' || c == '\u{85}' || c == '\u{a0}' || c == '\u{1680}'
        || ('\u{2000}' <= c <= '\u{200a}') || c == '\u{2028}' || c == '\u{2029}' || c
        == '\u{202f}' || c == '\u{205f}' || c == '\u{3000}'
}

/// Whether `c` is whitespace.
pub fn char_is_ws(c: char) -> (r: bool)
    ensures
        r == is_ws(c),
{
    ('\u{9}' <= c && c <= '\u{d}') || c == ' ' || c == '\u{85}' || c == '\u{a0}' || c
        == '\u{1680}' || ('\u{2000}' <= c && c <= '\u{200a}') || c == '\u{2028}' || c
        == '\u{2029}' || c == '\u{202f}' || c == '\u{205f}' || c == '\u{3000}'
}

/// `s` without leading whitespace.
pub open spec fn trim_start_seq(s: Seq<char>) -> Seq<char>
    decreases s.len(),
{
    if s.len() > 0 && is_ws(s[0]) {
        trim_start_seq(s.drop_first())
    } else {
        s
    }
}

/// `s` without trailing whitespace.
pub open spec fn trim_end_seq(s: Seq<char>) -> Seq<char>
    decreases s.len(),
{
    if s.len() > 0 && is_ws(s.last()) {
        trim_end_seq(s.drop_last())
    } else {
        s
    }
}

/// `s` without leading and trailing whitespace (`str::trim`).
pub open spec fn trim_seq(s: Seq<char>) -> Seq<char> {
    trim_end_seq(trim_start_seq(s))
}

proof fn lemma_trim_start_at(s: Seq<char>, i: int)
    requires
        0 <= i <= s.len(),
        forall|j: int| 0 <= j < i ==> is_ws(#[trigger] s[j]),
        i == s.len() || !is_ws(s[i]),
    ensures
        trim_start_seq(s) == s.subrange(i, s.len() as int),
    decreases i,
{
    if i == 0 {
        assert(s.subrange(0, s.len() as int) =~= s);
    } else {
        let t = s.drop_first();
        assert forall|j: int| 0 <= j < i - 1 implies is_ws(#[trigger] t[j]) by {
            assert(t[j] == s[j + 1]);
        }
        lemma_trim_start_at(t, i - 1);
        assert(t.subrange(i - 1, t.len() as int) =~= s.subrange(i, s.len() as int));
    }
}

proof fn lemma_trim_end_at(s: Seq<char>, k: int)
    requires
        0 <= k <= s.len(),
        forall|j: int| k <= j < s.len() ==> is_ws(#[trigger] s[j]),
        k == 0 || !is_ws(s[k - 1]),
    ensures
        trim_end_seq(s) == s.subrange(0, k),
    decreases s.len() - k,
{
    if k == s.len() {
        assert(s.subrange(0, k) =~= s);
    } else {
        let t = s.drop_last();
        assert forall|j: int| k <= j < t.len() implies is_ws(#[trigger] t[j]) by {
            assert(t[j] == s[j]);
        }
        lemma_trim_end_at(t, k);
        assert(t.subrange(0, k) =~= s.subrange(0, k));
    }
}

/// Characters of `s` without leading and trailing whitespace.
pub fn trim_chars(s: &str) -> (r: Vec<char>)
    ensures
        r@ == trim_seq(s@),
{
    let chars = chars_of(s);
    let n = chars.len();
    let mut i: usize = 0;
    while i < n && char_is_ws(chars[i])
        invariant
            chars@ == s@,
            n == chars@.len(),
            0 <= i <= n,
            forall|j: int| 0 <= j < i ==> is_ws(#[trigger] chars@[j]),
        decreases n - i,
    {
        i += 1;
    }
    proof {
        lemma_trim_start_at(s@, i as int);
    }
    let ghost mid = s@.subrange(i as int, n as int);
    let mut k: usize = n;
    while k > i && char_is_ws(chars[k - 1])
        invariant
            chars@ == s@,
            n == chars@.len(),
            i <= k <= n,
            forall|j: int| k <= j < n ==> is_ws(#[trigger] chars@[j]),
        decreases k,
    {
        k -= 1;
    }
    proof {
        assert forall|j: int| k - i <= j < mid.len() implies is_ws(#[trigger] mid[j]) by {
            assert(mid[j] == chars@[j + i]);
        }
        if k > i {
            assert(mid[k - i - 1] == chars@[k - 1]);
        }
        lemma_trim_end_at(mid, k - i);
        assert(mid.subrange(0, k - i) =~= s@.subrange(i as int, k as int));
    }
    let mut out: Vec<char> = Vec::new();
    let mut t: usize = i;
    while t < k
        invariant
            chars@ == s@,
            i <= t <= k <= n,
            n == chars@.len(),
            out@ == s@.subrange(i as int, t as int),
        decreases k - t,
    {
        out.push(chars[t]);
        assert(s@.subrange(i as int, t + 1) =~= s@.subrange(i as int, t as int).push(s@[t as int]));
        t += 1;
    }
    out
}

/// ASCII lowercase of a character sequence.
pub fn lower_ascii_chars(s: &Vec<char>) -> (r: Vec<char>)
    ensures
        r@ == lower_seq(s@),
{
    lower_chars(s)
}

// ---------------------------------------------------------------------------------------------
// Joining and padding

/// `parts` joined with single spaces.
pub open spec fn join_words(parts: Seq<Seq<char>>) -> Seq<char>
    decreases parts.len(),
{
    if parts.len() == 0 {
        Seq::empty()
    } else if parts.len() == 1 {
        parts[0]
    } else {
        join_words(parts.drop_last()) + " "@ + parts.last()
    }
}

/// `parts` joined with single spaces (`slice::join(" ")`).
pub fn join_with_spaces(parts: &Vec<String>) -> (r: String)
    ensures
        r@ == join_words(crate::types::strs(parts@)),
{
    let mut out = String::new();
    let mut i: usize = 0;
    while i < parts.len()
        invariant
            0 <= i <= parts@.len(),
            out@ == join_words(crate::types::strs(parts@.take(i as int))),
        decreases parts@.len() - i,
    {
        proof {
            reveal_strlit(" ");
            assert(crate::types::strs(parts@.take(i + 1)).drop_last() =~= crate::types::strs(parts@.take(i as int)));
            assert(crate::types::strs(parts@.take(i + 1)).last() == parts@[i as int]@);
        }
        if i > 0 {
            string_push(&mut out, ' ');
        }
        push_str(&mut out, parts[i].as_str());
        proof {
            if i == 0 {
                assert(crate::types::strs(parts@.take(1)).len() == 1);
                assert(out@ =~= parts@[0]@);
            } else {
                assert(" "@ =~= seq![' ']);
            }
        }
        i += 1;
    }
    assert(parts@.take(parts@.len() as int) =~= parts@);
    out
}

/// `parts` joined with `sep`.
pub open spec fn join_with(parts: Seq<Seq<char>>, sep: Seq<char>) -> Seq<char>
    decreases parts.len(),
{
    if parts.len() == 0 {
        Seq::empty()
    } else if parts.len() == 1 {
        parts[0]
    } else {
        join_with(parts.drop_last(), sep) + sep + parts.last()
    }
}

/// The first `n` of `parts` joined with `sep`.
pub fn join_prefix(parts: &Vec<String>, n: usize, sep: &str) -> (r: String)
    requires
        n <= parts@.len(),
    ensures
        r@ == join_with(crate::types::strs(parts@).take(n as int), sep@),
{
    let mut out = String::new();
    let mut i: usize = 0;
    while i < n
        invariant
            0 <= i <= n <= parts@.len(),
            out@ == join_with(crate::types::strs(parts@).take(i as int), sep@),
        decreases n - i,
    {
        proof {
            let all = crate::types::strs(parts@);
            assert(all.take(i + 1).drop_last() =~= all.take(i as int));
            assert(all.take(i + 1).last() == parts@[i as int]@);
        }
        if i > 0 {
            push_str(&mut out, sep);
        }
        push_str(&mut out, parts[i].as_str());
        proof {
            if i == 0 {
                assert(crate::types::strs(parts@).take(1).len() == 1);
                assert(out@ =~= parts@[0]@);
            }
        }
        i += 1;
    }
    out
}

/// `parts` joined with `sep` (`slice::join`).
pub fn join_strings(parts: &Vec<String>, sep: &str) -> (r: String)
    ensures
        r@ == join_with(crate::types::strs(parts@), sep@),
{
    let r = join_prefix(parts, parts.len(), sep);
    assert(crate::types::strs(parts@).take(parts@.len() as int) =~= crate::types::strs(parts@));
    r
}

/// Decimal texts of `v`.
pub open spec fn decimals(v: Seq<u64>) -> Seq<Seq<char>> {
    v.map_values(|x: u64| decimal(x as nat))
}

/// Decimal texts of `v`, in order.
pub fn decimal_strings(v: &Vec<u64>) -> (r: Vec<String>)
    ensures
        crate::types::strs(r@) == decimals(v@),
{
    let mut out: Vec<String> = Vec::new();
    let mut i: usize = 0;
    while i < v.len()
        invariant
            0 <= i <= v@.len(),
            crate::types::strs(out@) == decimals(v@.take(i as int)),
        decreases v@.len() - i,
    {
        let ghost before = out@;
        out.push(u64_to_decimal(v[i]));
        assert(crate::types::strs(out@) =~= crate::types::strs(before).push(decimal(v@[i as int] as nat)));
        assert(decimals(v@.take(i + 1)) =~= decimals(v@.take(i as int)).push(decimal(v@[i as int] as nat)));
        i += 1;
    }
    assert(v@.take(v@.len() as int) =~= v@);
    out
}

/// `n` spaces.
pub open spec fn spaces(n: nat) -> Seq<char> {
    Seq::new(n, |i: int| ' ')
}

/// `s` left-aligned in a field of `w` characters (`{:<w}`).
pub open spec fn pad_right(s: Seq<char>, w: nat) -> Seq<char> {
    if s.len() >= w {
        s
    } else {
        s + spaces((w - s.len()) as nat)
    }
}

/// `s` right-aligned in a field of `w` characters (`{:>w}`).
pub open spec fn pad_left(s: Seq<char>, w: nat) -> Seq<char> {
    if s.len() >= w {
        s
    } else {
        spaces((w - s.len()) as nat) + s
    }
}

/// `s` centred in a field of `w` characters, extra space on the right (`{:^w}`).
pub open spec fn pad_center(s: Seq<char>, w: nat) -> Seq<char> {
    if s.len() >= w {
        s
    } else {
        let fill = (w - s.len()) as nat;
        spaces(fill / 2) + s + spaces((fill - fill / 2) as nat)
    }
}

fn push_spaces(out: &mut String, n: usize)
    ensures
        final(out)@ == old(out)@ + spaces(n as nat),
{
    let mut i: usize = 0;
    while i < n
        invariant
            0 <= i <= n,
            out@ == old(out)@ + spaces(i as nat),
        decreases n - i,
    {
        string_push(out, ' ');
        assert(spaces((i + 1) as nat) =~= spaces(i as nat).push(' '));
        i += 1;
    }
}

/// Appends `s` padded to `w` characters with the given alignment (`0` left, `1` right,
/// `2` centre).
pub fn push_padded(out: &mut String, s: &str, w: usize, align: u8)
    requires
        align <= 2,
    ensures
        final(out)@ == old(out)@ + (if align == 0 {
            pad_right(s@, w as nat)
        } else if align == 1 {
            pad_left(s@, w as nat)
        } else {
            pad_center(s@, w as nat)
        }),
{
    let len = s.unicode_len();
    if len >= w {
        push_str(out, s);
        return;
    }
    let fill = w - len;
    if align == 0 {
        push_str(out, s);
        push_spaces(out, fill);
        assert(out@ =~= old(out)@ + pad_right(s@, w as nat));
    } else if align == 1 {
        push_spaces(out, fill);
        push_str(out, s);
        assert(out@ =~= old(out)@ + pad_left(s@, w as nat));
    } else {
        push_spaces(out, fill / 2);
        push_str(out, s);
        push_spaces(out, fill - fill / 2);
        assert(out@ =~= old(out)@ + pad_center(s@, w as nat));
    }
}

// ---------------------------------------------------------------------------------------------
// UTF-8 widths and truncation

/// Bytes of `c` in UTF-8.
pub open spec fn char_width(c: char) -> nat {
    if (c as u32) <= 0x7F {
        1
    } else if (c as u32) <= 0x7FF {
        2
    } else if (c as u32) <= 0xFFFF {
        3
    } else {
        4
    }
}

fn char_utf8_width(c: char) -> (r: usize)
    ensures
        r == char_width(c),
{
    let u = c as u32;
    if u <= 0x7F {
        1
    } else if u <= 0x7FF {
        2
    } else if u <= 0xFFFF {
        3
    } else {
        4
    }
}

/// Index of the first character of `s` (from `i`) that no longer fits in `budget` bytes, when
/// characters are taken in order: the longest prefix of at most `budget` UTF-8 bytes ends there.
pub open spec fn fit_from(s: Seq<char>, i: int, budget: int) -> int
    decreases s.len() - i,
{
    if i < 0 || i >= s.len() {
        s.len() as int
    } else if char_width(s[i]) as int <= budget {
        fit_from(s, i + 1, budget - char_width(s[i]))
    } else {
        i
    }
}

/// `s` cut to at most `max` UTF-8 bytes: unchanged when it fits; else, when the 3-byte `…`
/// fits, the longest prefix of at most `max - 3` bytes (on a character boundary) followed by
/// `…`; else the longest prefix of at most `max` bytes.
pub open spec fn truncated(s: Seq<char>, max: nat) -> Seq<char> {
    if crate::document_wire::byte_len(s) <= max {
        s
    } else if max >= 3 {
        s.take(fit_from(s, 0, max - 3)) + seq!['\u{2026}']
    } else {
        s.take(fit_from(s, 0, max as int))
    }
}

proof fn lemma_scalar_width(c: char)
    ensures
        vstd::utf8::encode_scalar(c as u32).len() == char_width(c),
{
}

proof fn lemma_encode_concat(a: Seq<char>, b: Seq<char>)
    ensures
        vstd::utf8::encode_utf8(a + b).len() == vstd::utf8::encode_utf8(a).len()
            + vstd::utf8::encode_utf8(b).len(),
    decreases a.len(),
{
    if a.len() > 0 {
        assert((a + b).drop_first() =~= a.drop_first() + b);
        assert((a + b)[0] == a[0]);
        lemma_encode_concat(a.drop_first(), b);
    } else {
        assert(a + b =~= b);
    }
}

/// The characters that `fit_from` passes over take at most `budget` UTF-8 bytes.
proof fn lemma_fit_from_bytes(s: Seq<char>, i: int, budget: int)
    requires
        0 <= i <= s.len(),
        budget >= 0,
    ensures
        i <= fit_from(s, i, budget) <= s.len(),
        vstd::utf8::encode_utf8(s.subrange(i, fit_from(s, i, budget))).len() <= budget,
    decreases s.len() - i,
{
    let k = fit_from(s, i, budget);
    if i < s.len() && char_width(s[i]) as int <= budget {
        lemma_fit_from_bytes(s, i + 1, budget - char_width(s[i]));
        let t = s.subrange(i, k);
        assert(t.drop_first() =~= s.subrange(i + 1, k));
        assert(t[0] == s[i]);
        lemma_scalar_width(s[i]);
    } else {
        assert(s.subrange(i, k).len() == 0);
    }
}

/// A truncated field never takes more than `max` UTF-8 bytes.
pub proof fn lemma_truncated_fits(s: Seq<char>, max: nat)
    ensures
        crate::document_wire::byte_len(truncated(s, max)) <= max,
{
    if crate::document_wire::byte_len(s) > max {
        let budget: int = if max >= 3 { max - 3 } else { max as int };
        lemma_fit_from_bytes(s, 0, budget);
        let p = s.take(fit_from(s, 0, budget));
        assert(p =~= s.subrange(0, fit_from(s, 0, budget)));
        if max >= 3 {
            let e = seq!['\u{2026}'];
            lemma_encode_concat(p, e);
            lemma_encode_concat(e, Seq::<char>::empty());
            assert(e =~= e + Seq::<char>::empty());
            assert(e.drop_first() =~= Seq::<char>::empty());
            lemma_scalar_width('\u{2026}');
            assert(vstd::utf8::encode_utf8(e).len() == 3);
        }
    }
}

/// Truncate `s` to at most `max` bytes (UTF-8 safe), with an ellipsis suffix when one fits.
pub fn truncate_field(s: &str, max: usize) -> (r: String)
    ensures
        r@ == truncated(s@, max as nat),
        crate::document_wire::byte_len(r@) <= max,
{
    proof {
        lemma_truncated_fits(s@, max as nat);
    }
    if s.len() <= max {
        return owned(s);
    }
    let budget: usize = if max >= 3 {
        max - 3
    } else {
        max
    };
    let chars = chars_of(s);
    let n = chars.len();
    let mut i: usize = 0;
    let mut left: usize = budget;
    while i < n && char_utf8_width(chars[i]) <= left
        invariant
            chars@ == s@,
            n == chars@.len(),
            0 <= i <= n,
            left <= budget,
            fit_from(s@, 0, budget as int) == fit_from(s@, i as int, left as int),
        decreases n - i,
    {
        left -= char_utf8_width(chars[i]);
        i += 1;
    }
    let mut out = String::new();
    let mut t: usize = 0;
    while t < i
        invariant
            chars@ == s@,
            0 <= t <= i <= n,
            n == chars@.len(),
            out@ == s@.take(t as int),
        decreases i - t,
    {
        string_push(&mut out, chars[t]);
        assert(s@.take(t + 1) =~= s@.take(t as int).push(s@[t as int]));
        t += 1;
    }
    if max >= 3 {
        string_push(&mut out, '\u{2026}');
        assert(out@ =~= s@.take(i as int) + seq!['\u{2026}']);
    }
    out
}

/// Appends `s` left-aligned in `w` characters.
pub fn push_left_aligned(out: &mut String, s: &str, w: usize)
    ensures
        final(out)@ == old(out)@ + pad_right(s@, w as nat),
{
    push_padded(out, s, w, 0);
}

/// Appends `s` right-aligned in `w` characters.
pub fn push_right_aligned(out: &mut String, s: &str, w: usize)
    ensures
        final(out)@ == old(out)@ + pad_left(s@, w as nat),
{
    push_padded(out, s, w, 1);
}

/// Appends `s` centred in `w` characters.
pub fn push_centered(out: &mut String, s: &str, w: usize)
    ensures
        final(out)@ == old(out)@ + pad_center(s@, w as nat),
{
    push_padded(out, s, w, 2);
}

} // verus!
