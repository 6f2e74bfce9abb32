//! Character-level helpers shared by version parsing and formatting:
//! decimal digits, scanning for separator characters, and lexicographic
//! comparison of character sequences.

use vstd::prelude::*;

verus! {

/// Decimal digit characters.
pub open spec fn is_digit_char(c: char) -> bool {
    '0' <= c && c <= '9'
}

/// Numeric value of a decimal digit character.
pub open spec fn digit_val(c: char) -> int {
    c as int - '0' as int
}

/// Every character of `s` is a decimal digit.
pub open spec fn all_digits(s: Seq<char>) -> bool {
    forall|i: int| 0 <= i < s.len() ==> is_digit_char(#[trigger] s[i])
}

/// The number denoted by a sequence of decimal digits, most significant first.
pub open spec fn chars_to_int(s: Seq<char>) -> int
    decreases s.len(),
{
    if s.len() == 0 {
        0
    } else {
        chars_to_int(s.drop_last()) * 10 + digit_val(s.last())
    }
}

/// The digit character for a value in 0..10.
pub open spec fn digit_char(n: int) -> char {
    if n == 0 { '0' }
    else if n == 1 { '1' }
    else if n == 2 { '2' }
    else if n == 3 { '3' }
    else if n == 4 { '4' }
    else if n == 5 { '5' }
    else if n == 6 { '6' }
    else if n == 7 { '7' }
    else if n == 8 { '8' }
    else { '9' }
}

/// The canonical decimal rendering of a nonnegative number (no leading zeros,
/// a single "0" for zero).
pub open spec fn int_to_chars(n: int) -> Seq<char>
    decreases n,
{
    if n < 10 {
        seq![digit_char(n)]
    } else {
        int_to_chars(n / 10).push(digit_char(n % 10))
    }
}

pub proof fn lemma_chars_to_int_nonneg(s: Seq<char>)
    requires
        all_digits(s),
    ensures
        chars_to_int(s) >= 0,
    decreases s.len(),
{
    if s.len() > 0 {
        assert(all_digits(s.drop_last()));
        lemma_chars_to_int_nonneg(s.drop_last());
    }
}

/// Appending a digit multiplies the value by ten and adds the digit.
pub proof fn lemma_chars_to_int_push(s: Seq<char>, c: char)
    ensures
        chars_to_int(s.push(c)) == chars_to_int(s) * 10 + digit_val(c),
{
    assert(s.push(c).drop_last() =~= s);
    assert(s.push(c).last() == c);
}

/// The value of a digit string only grows as more digits are read.
pub proof fn lemma_chars_to_int_prefix_le(s: Seq<char>, i: int)
    requires
        all_digits(s),
        0 <= i <= s.len(),
    ensures
        chars_to_int(s.take(i)) <= chars_to_int(s),
    decreases s.len() - i,
{
    if i < s.len() {
        let t = s.take(i + 1);
        assert(t =~= s.take(i).push(s[i]));
        lemma_chars_to_int_push(s.take(i), s[i]);
        assert(all_digits(s.take(i)));
        lemma_chars_to_int_nonneg(s.take(i));
        assert(chars_to_int(s.take(i)) <= chars_to_int(s.take(i + 1)));
        lemma_chars_to_int_prefix_le(s, i + 1);
    } else {
        assert(s.take(i) =~= s);
    }
}

/// The canonical rendering consists of digits and reads back to the value.
pub proof fn lemma_int_to_chars_roundtrip(n: int)
    requires
        n >= 0,
    ensures
        all_digits(int_to_chars(n)),
        int_to_chars(n).len() >= 1,
        chars_to_int(int_to_chars(n)) == n,
    decreases n,
{
    if n < 10 {
        let w = seq![digit_char(n)];
        assert(w.drop_last() =~= Seq::<char>::empty());
        assert(chars_to_int(Seq::<char>::empty()) == 0);
        assert(w.last() == digit_char(n));
        assert(chars_to_int(w) == 0 * 10 + digit_val(digit_char(n)));
    } else {
        lemma_int_to_chars_roundtrip(n / 10);
        lemma_chars_to_int_push(int_to_chars(n / 10), digit_char(n % 10));
        assert(all_digits(int_to_chars(n))) by {
            let p = int_to_chars(n / 10);
            let w = p.push(digit_char(n % 10));
            assert(forall|i: int| 0 <= i < w.len() ==> is_digit_char(#[trigger] w[i])) by {
                assert(forall|i: int| 0 <= i < p.len() ==> is_digit_char(#[trigger] p[i]));
                assert(w.last() == digit_char(n % 10));
                assert(forall|i: int| 0 <= i < w.len() ==> w[i] == (if i < p.len() { p[i] } else { digit_char(n % 10) }));
            }
        }
    }
}

/// First index in `[from, end)` whose character is a dot, or `end` if none.
pub open spec fn first_dot_from(s: Seq<char>, from: int, end: int) -> int
    decreases end - from,
{
    if from >= end {
        end
    } else if s[from] == '.' {
        from
    } else {
        first_dot_from(s, from + 1, end)
    }
}

/// Characters that may appear in the numeric part of a version string.
pub open spec fn is_ver_char(c: char) -> bool {
    is_digit_char(c) || c == '.' || c == '*'
}

/// First index in `[from, end)` whose character cannot belong to the numeric
/// part (where the suffix begins), or `end` if none.
pub open spec fn first_non_ver(s: Seq<char>, from: int, end: int) -> int
    decreases end - from,
{
    if from >= end {
        end
    } else if !is_ver_char(s[from]) {
        from
    } else {
        first_non_ver(s, from + 1, end)
    }
}

/// An index below which everything is a dot-free stretch and which itself is
/// a dot (or the end) is exactly where the scan stops.
pub proof fn lemma_first_dot_is(s: Seq<char>, from: int, end: int, k: int)
    requires
        from <= k <= end,
        forall|j: int| from <= j < k ==> s[j] != '.',
        k < end ==> s[k] == '.',
    ensures
        first_dot_from(s, from, end) == k,
    decreases k - from,
{
    if from < k {
        lemma_first_dot_is(s, from + 1, end, k);
    }
}

pub proof fn lemma_first_non_ver_is(s: Seq<char>, from: int, end: int, k: int)
    requires
        from <= k <= end,
        forall|j: int| from <= j < k ==> is_ver_char(s[j]),
        k < end ==> !is_ver_char(s[k]),
    ensures
        first_non_ver(s, from, end) == k,
    decreases k - from,
{
    if from < k {
        lemma_first_non_ver_is(s, from + 1, end, k);
    }
}

/// ASCII whitespace, as trimmed around requirement pieces.
pub open spec fn is_ws(c: char) -> bool {
    c == ' ' || c == '\t' || c == '\n' || c == '\r'
}

/// First comma in `[from, end)`, or `end` if none.
pub open spec fn first_comma_from(s: Seq<char>, from: int, end: int) -> int
    decreases end - from,
{
    if from >= end {
        end
    } else if s[from] == ',' {
        from
    } else {
        first_comma_from(s, from + 1, end)
    }
}

/// The comma scan stays within its bounds.
pub proof fn lemma_first_comma_bounds(s: Seq<char>, from: int, end: int)
    requires
        from <= end,
    ensures
        from <= first_comma_from(s, from, end) <= end,
    decreases end - from,
{
    if from < end && s[from] != ',' {
        lemma_first_comma_bounds(s, from + 1, end);
    }
}

pub proof fn lemma_first_comma_is(s: Seq<char>, from: int, end: int, k: int)
    requires
        from <= k <= end,
        forall|j: int| from <= j < k ==> s[j] != ',',
        k < end ==> s[k] == ',',
    ensures
        first_comma_from(s, from, end) == k,
    decreases k - from,
{
    if from < k {
        lemma_first_comma_is(s, from + 1, end, k);
    }
}

/// First index in `[from, end)` that is not whitespace, or `end` if all are.
pub open spec fn trim_start_idx(s: Seq<char>, from: int, end: int) -> int
    decreases end - from,
{
    if from >= end {
        end
    } else if is_ws(s[from]) {
        trim_start_idx(s, from + 1, end)
    } else {
        from
    }
}

/// Index just past the last non-whitespace character of `[from, end)`, or
/// `from` if all are whitespace.
pub open spec fn trim_end_idx(s: Seq<char>, from: int, end: int) -> int
    decreases end - from,
{
    if end <= from {
        from
    } else if is_ws(s[end - 1]) {
        trim_end_idx(s, from, end - 1)
    } else {
        end
    }
}

/// Whether the sequence holds a star anywhere.
pub open spec fn has_star(s: Seq<char>) -> bool {
    exists|i: int| 0 <= i < s.len() && s[i] == '*'
}

/// First comma at or after `from`, or `end` if none.
pub fn find_comma(s: &str, from: usize, end: usize) -> (r: usize)
    requires
        from <= end <= s@.len(),
    ensures
        r == first_comma_from(s@, from as int, end as int),
        from <= r <= end,
{
    let mut i: usize = from;
    while i < end
        invariant
            from <= i <= end <= s@.len(),
            forall|j: int| from <= j < i ==> s@[j] != ',',
        decreases end - i,
    {
        if s.get_char(i) == ',' {
            proof {
                lemma_first_comma_is(s@, from as int, end as int, i as int);
            }
            return i;
        }
        i = i + 1;
    }
    proof {
        lemma_first_comma_is(s@, from as int, end as int, end as int);
    }
    end
}

/// Whether one character is ASCII whitespace.
fn ws_char(c: char) -> (r: bool)
    ensures
        r == is_ws(c),
{
    c == ' ' || c == '\t' || c == '\n' || c == '\r'
}

/// The bounds of `s[from..end]` with surrounding ASCII whitespace removed.
pub fn trim_bounds(s: &str, from: usize, end: usize) -> (r: (usize, usize))
    requires
        from <= end <= s@.len(),
    ensures
        r.0 == trim_start_idx(s@, from as int, end as int),
        r.1 == trim_end_idx(s@, r.0 as int, end as int),
        from <= r.0 <= r.1 <= end,
{
    let mut a: usize = from;
    while a < end && ws_char(s.get_char(a))
        invariant
            from <= a <= end <= s@.len(),
            trim_start_idx(s@, from as int, end as int) == trim_start_idx(s@, a as int, end as int),
        decreases end - a,
    {
        a = a + 1;
    }
    let mut b: usize = end;
    while b > a && ws_char(s.get_char(b - 1))
        invariant
            a <= b <= end <= s@.len(),
            trim_end_idx(s@, a as int, end as int) == trim_end_idx(s@, a as int, b as int),
        decreases b,
    {
        b = b - 1;
    }
    (a, b)
}

/// Whether the string holds a star anywhere.
pub fn contains_star(s: &str) -> (r: bool)
    ensures
        r == has_star(s@),
{
    let n = s.unicode_len();
    let mut i: usize = 0;
    while i < n
        invariant
            i <= n,
            n == s@.len(),
            forall|j: int| 0 <= j < i ==> s@[j] != '*',
        decreases n - i,
    {
        if s.get_char(i) == '*' {
            return true;
        }
        i = i + 1;
    }
    false
}

/// Three-way lexicographic comparison of character sequences, by code point.
pub open spec fn seq_char_cmp(a: Seq<char>, b: Seq<char>) -> core::cmp::Ordering
    decreases a.len(),
{
    if a.len() == 0 && b.len() == 0 {
        core::cmp::Ordering::Equal
    } else if a.len() == 0 {
        core::cmp::Ordering::Less
    } else if b.len() == 0 {
        core::cmp::Ordering::Greater
    } else if a[0] != b[0] {
        if a[0] < b[0] { core::cmp::Ordering::Less } else { core::cmp::Ordering::Greater }
    } else {
        seq_char_cmp(a.skip(1), b.skip(1))
    }
}

/// Lexicographic comparison reports equality exactly on equal sequences.
pub proof fn lemma_seq_char_cmp_eq(a: Seq<char>, b: Seq<char>)
    ensures
        (seq_char_cmp(a, b) == core::cmp::Ordering::Equal) <==> a == b,
    decreases a.len(),
{
    if a.len() == 0 && b.len() == 0 {
        assert(a =~= b);
    } else if a.len() == 0 || b.len() == 0 {
    } else if a[0] != b[0] {
        assert(a != b);
    } else {
        lemma_seq_char_cmp_eq(a.skip(1), b.skip(1));
        if seq_char_cmp(a, b) == core::cmp::Ordering::Equal {
            assert(a.skip(1) == b.skip(1));
            assert(a.skip(1).len() == b.skip(1).len());
            assert forall|i: int| 0 <= i < a.len() implies a[i] == b[i] by {
                if i > 0 {
                    assert(a[i] == a.skip(1)[i - 1]);
                    assert(b[i] == b.skip(1)[i - 1]);
                }
            }
            assert(a =~= b);
        } else {
            if a == b {
                assert(a.skip(1) =~= b.skip(1));
            }
        }
    }
}

/// Parses `s[start..end]` as a decimal number fitting in `u16`: at least one
/// digit, digits only, value at most `u16::MAX`.
pub open spec fn spec_parse_u16(p: Seq<char>) -> Option<u16> {
    if p.len() > 0 && all_digits(p) && chars_to_int(p) <= 65535 {
        Some(chars_to_int(p) as u16)
    } else {
        None
    }
}

/// Reads the decimal number in `s[start..end]`, rejecting empty input,
/// non-digit characters and values above `u16::MAX`.
pub fn parse_u16_range(s: &str, start: usize, end: usize) -> (r: Option<u16>)
    requires
        start <= end <= s@.len(),
    ensures
        r == spec_parse_u16(s@.subrange(start as int, end as int)),
{
    let ghost p = s@.subrange(start as int, end as int);
    if start == end {
        return None;
    }
    let mut acc: u32 = 0;
    let mut i: usize = start;
    while i < end
        invariant
            start <= i <= end <= s@.len(),
            p == s@.subrange(start as int, end as int),
            all_digits(p.take(i - start)),
            acc == chars_to_int(p.take(i - start)),
            acc <= 65535,
        decreases end - i,
    {
        let c = s.get_char(i);
        assert(c == p[i - start]);
        if c < '0' || c > '9' {
            assert(!all_digits(p));
            return None;
        }
        let d: u32 = (c as u32) - ('0' as u32);
        proof {
            assert(p.take(i + 1 - start) =~= p.take(i - start).push(p[i - start]));
            lemma_chars_to_int_push(p.take(i - start), p[i - start]);
        }
        acc = acc * 10 + d;
        if acc > 65535 {
            proof {
                if all_digits(p) && chars_to_int(p) <= 65535 {
                    lemma_chars_to_int_prefix_le(p, i + 1 - start);
                }
            }
            return None;
        }
        i = i + 1;
    }
    proof {
        assert(p.take(end - start) =~= p);
    }
    Some(acc as u16)
}

/// Appends the canonical decimal rendering of `n` to `out`.
pub fn push_u16_chars(n: u16, out: &mut Vec<char>)
    ensures
        final(out)@ == old(out)@ + int_to_chars(n as int),
    decreases n,
{
    let d: u16 = n % 10;
    let c: char = match d {
        0 => '0',
        1 => '1',
        2 => '2',
        3 => '3',
        4 => '4',
        5 => '5',
        6 => '6',
        7 => '7',
        8 => '8',
        _ => '9',
    };
    assert(c == digit_char(d as int));
    if n < 10 {
        out.push(c);
        assert(final(out)@ =~= old(out)@ + int_to_chars(n as int));
    } else {
        push_u16_chars(n / 10, out);
        out.push(c);
        assert(final(out)@ =~= old(out)@ + int_to_chars(n as int));
    }
}

/// Relies on `String`'s `FromIterator<char>` implementation: collecting
/// characters yields the string of exactly those characters in order.
#[verifier::external_body]
pub(crate) fn chars_to_string(v: &Vec<char>) -> (r: String)
    ensures
        r@ == v@,
{
    v.iter().collect()
}

/// Character-for-character equality of string slices.
pub fn str_eq(a: &str, b: &str) -> (r: bool)
    ensures
        r == (a@ == b@),
{
    let an = a.unicode_len();
    let bn = b.unicode_len();
    if an != bn {
        return false;
    }
    let mut i: usize = 0;
    while i < an
        invariant
            an == a@.len(),
            bn == b@.len(),
            an == bn,
            i <= an,
            forall|j: int| 0 <= j < i ==> a@[j] == b@[j],
        decreases an - i,
    {
        if a.get_char(i) != b.get_char(i) {
            return false;
        }
        i = i + 1;
    }
    proof {
        assert(a@ =~= b@);
    }
    true
}

/// Three-way lexicographic comparison of string slices by character.
pub fn str_cmp(a: &str, b: &str) -> (r: core::cmp::Ordering)
    ensures
        r == seq_char_cmp(a@, b@),
{
    let an = a.unicode_len();
    let bn = b.unicode_len();
    let mut i: usize = 0;
    proof {
        assert(a@.skip(0) =~= a@);
        assert(b@.skip(0) =~= b@);
    }
    loop
        invariant
            an == a@.len(),
            bn == b@.len(),
            i <= an,
            i <= bn,
            seq_char_cmp(a@, b@) == seq_char_cmp(a@.skip(i as int), b@.skip(i as int)),
        decreases an - i,
    {
        let ghost sa = a@.skip(i as int);
        let ghost sb = b@.skip(i as int);
        if i >= an && i >= bn {
            return core::cmp::Ordering::Equal;
        } else if i >= an {
            return core::cmp::Ordering::Less;
        } else if i >= bn {
            return core::cmp::Ordering::Greater;
        }
        let ca = a.get_char(i);
        let cb = b.get_char(i);
        assert(ca == sa[0] && cb == sb[0]);
        if ca < cb {
            return core::cmp::Ordering::Less;
        } else if ca > cb {
            return core::cmp::Ordering::Greater;
        }
        proof {
            assert(sa.skip(1) =~= a@.skip(i + 1));
            assert(sb.skip(1) =~= b@.skip(i + 1));
        }
        i = i + 1;
    }
}

} // verus!
