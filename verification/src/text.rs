//! Character-level helpers for the line-oriented text the note tool prints:
//! whitespace trimming, line splitting and decimal numbers.

use vstd::prelude::*;

verus! {

/// Whether `c` is one of the Unicode `White_Space` code points.
pub open spec fn is_whitespace(c: char) -> bool {
    let u = c as u32;
    ||| 0x09 <= u <= 0x0D
    ||| u == 0x20
    ||| u == 0x85
    ||| u == 0xA0
    ||| u == 0x1680
    ||| 0x2000 <= u <= 0x200A
    ||| u == 0x2028
    ||| u == 0x2029
    ||| u == 0x202F
    ||| u == 0x205F
    ||| u == 0x3000
}

/// Tests a character for the Unicode `White_Space` property.
pub fn char_is_whitespace(c: char) -> (b: bool)
    ensures
        b == is_whitespace(c),
{
    let u: u32 = c as u32;
    (0x09 <= u && u <= 0x0D) || u == 0x20 || u == 0x85 || u == 0xA0 || u == 0x1680 || (0x2000 <= u
        && u <= 0x200A) || u == 0x2028 || u == 0x2029 || u == 0x202F || u == 0x205F || u == 0x3000
}

/// `s` without its leading whitespace.
pub open spec fn trim_start(s: Seq<char>) -> Seq<char>
    decreases s.len(),
{
    if s.len() > 0 && is_whitespace(s.first()) {
        trim_start(s.drop_first())
    } else {
        s
    }
}

/// `s` without its trailing whitespace.
pub open spec fn trim_end(s: Seq<char>) -> Seq<char>
    decreases s.len(),
{
    if s.len() > 0 && is_whitespace(s.last()) {
        trim_end(s.drop_last())
    } else {
        s
    }
}

/// `s` without its leading and trailing whitespace.
pub open spec fn trim(s: Seq<char>) -> Seq<char> {
    trim_end(trim_start(s))
}

/// Trimming only ever removes characters from the two ends.
pub proof fn lemma_trim_start_is_suffix(s: Seq<char>)
    ensures
        trim_start(s).len() <= s.len(),
        trim_start(s) == s.skip(s.len() - trim_start(s).len()),
        forall|i: int| 0 <= i < s.len() - trim_start(s).len() ==> is_whitespace(#[trigger] s[i]),
        trim_start(s).len() > 0 ==> !is_whitespace(trim_start(s).first()),
    decreases s.len(),
{
    if s.len() > 0 && is_whitespace(s.first()) {
        let t = s.drop_first();
        lemma_trim_start_is_suffix(t);
        let k = t.len() - trim_start(t).len();
        assert(t.skip(k) == s.skip(k + 1));
        assert forall|i: int| 0 <= i < s.len() - trim_start(s).len() implies is_whitespace(
            #[trigger] s[i],
        ) by {
            if i > 0 {
                assert(s[i] == t[i - 1]);
            }
        }
    } else {
        assert(s.skip(0) == s);
    }
}

/// Trimming the end removes a run of whitespace and nothing else.
pub proof fn lemma_trim_end_is_prefix(s: Seq<char>)
    ensures
        trim_end(s).len() <= s.len(),
        trim_end(s) == s.take(trim_end(s).len() as int),
        forall|i: int| trim_end(s).len() <= i < s.len() ==> is_whitespace(#[trigger] s[i]),
        trim_end(s).len() > 0 ==> !is_whitespace(trim_end(s).last()),
    decreases s.len(),
{
    if s.len() > 0 && is_whitespace(s.last()) {
        let t = s.drop_last();
        lemma_trim_end_is_prefix(t);
        let k = trim_end(t).len() as int;
        assert(t.take(k) == s.take(k));
        assert forall|i: int| trim_end(s).len() <= i < s.len() implies is_whitespace(
            #[trigger] s[i],
        ) by {
            if i < s.len() - 1 {
                assert(s[i] == t[i]);
            }
        }
    } else {
        assert(s.take(s.len() as int) == s);
    }
}

/// A trimmed text neither starts nor ends with whitespace, and trimming it
/// again changes nothing.
pub proof fn lemma_trim_is_trimmed(s: Seq<char>)
    ensures
        trim(s).len() > 0 ==> !is_whitespace(trim(s).first()) && !is_whitespace(trim(s).last()),
        trim(trim(s)) == trim(s),
{
    let a = trim_start(s);
    lemma_trim_start_is_suffix(s);
    lemma_trim_end_is_prefix(a);
    let t = trim(s);
    if t.len() > 0 {
        assert(t.first() == a.first());
    }
}

/// The bounds of `trim` within a text: the trimmed text is the characters
/// from `start` up to `end`.
pub fn trim_bounds(text: &[char], lo: usize, hi: usize) -> (bounds: (usize, usize))
    requires
        lo <= hi <= text@.len(),
    ensures
        lo <= bounds.0 <= bounds.1 <= hi,
        text@.subrange(bounds.0 as int, bounds.1 as int) == trim(text@.subrange(lo as int, hi as int)),
{
    let ghost whole = text@.subrange(lo as int, hi as int);
    let mut start: usize = lo;
    while start < hi && char_is_whitespace(text[start])
        invariant
            lo <= start <= hi <= text@.len(),
            whole == text@.subrange(lo as int, hi as int),
            trim_start(whole) == trim_start(text@.subrange(start as int, hi as int)),
        decreases hi - start,
    {
        proof {
            let cur = text@.subrange(start as int, hi as int);
            assert(cur.first() == text@[start as int]);
            assert(cur.drop_first() == text@.subrange(start + 1, hi as int));
        }
        start += 1;
    }
    proof {
        let cur = text@.subrange(start as int, hi as int);
        if start < hi {
            assert(cur.first() == text@[start as int]);
        }
        assert(trim_start(whole) == cur);
    }
    let mut end: usize = hi;
    while end > start && char_is_whitespace(text[end - 1])
        invariant
            lo <= start <= end <= hi <= text@.len(),
            trim(whole) == trim_end(text@.subrange(start as int, end as int)),
        decreases end - start,
    {
        proof {
            let cur = text@.subrange(start as int, end as int);
            assert(cur.last() == text@[end - 1]);
            assert(cur.drop_last() == text@.subrange(start as int, end - 1));
        }
        end -= 1;
    }
    proof {
        let cur = text@.subrange(start as int, end as int);
        if end > start {
            assert(cur.last() == text@[end - 1]);
        }
    }
    (start, end)
}

/// The characters of a string slice, in order.
pub fn chars_of(s: &str) -> (v: Vec<char>)
    ensures
        v@ == s@,
{
    let mut v: Vec<char> = Vec::new();
    for c in it: s.chars()
        invariant
            v@ == it.seq().take(it.index() as int),
            it.seq() == s@,
    {
        v.push(c);
    }
    v
}

/// `String::push` appends one character to the end of the string.
#[verifier::external_body]
pub(crate) fn push_char(s: &mut String, c: char)
    ensures
        final(s)@ == old(s)@.push(c),
{
    s.push(c);
}

/// A string holding the characters of `text` from `lo` up to `hi`.
pub fn string_of(text: &[char], lo: usize, hi: usize) -> (s: String)
    requires
        lo <= hi <= text@.len(),
    ensures
        s@ == text@.subrange(lo as int, hi as int),
{
    let mut s = String::new();
    let mut i: usize = lo;
    while i < hi
        invariant
            lo <= i <= hi <= text@.len(),
            s@ == text@.subrange(lo as int, i as int),
        decreases hi - i,
    {
        push_char(&mut s, text[i]);
        i += 1;
    }
    s
}

/// `s` trimmed of leading and trailing whitespace, as an owned string.
pub fn trimmed(s: &str) -> (t: String)
    ensures
        t@ == trim(s@),
{
    let chars = chars_of(s);
    let n = chars.len();
    assert(chars@.subrange(0, n as int) == chars@);
    let (a, b) = trim_bounds(chars.as_slice(), 0, n);
    string_of(chars.as_slice(), a, b)
}


/// The number of characters of `s` before the first `c`; all of them if `c`
/// does not occur.
pub open spec fn first_index_of(s: Seq<char>, c: char) -> nat
    decreases s.len(),
{
    if s.len() == 0 || s.first() == c {
        0
    } else {
        1 + first_index_of(s.drop_first(), c)
    }
}

/// An index is the first occurrence of `c` if `c` stands there and nowhere
/// before it; the length is, if `c` stands nowhere.
pub proof fn lemma_first_index_of(s: Seq<char>, c: char, n: int)
    requires
        0 <= n <= s.len(),
        forall|k: int| 0 <= k < n ==> s[k] != c,
        n < s.len() ==> s[n] == c,
    ensures
        first_index_of(s, c) == n,
    decreases n,
{
    if n > 0 {
        let t = s.drop_first();
        assert forall|k: int| 0 <= k < n - 1 implies t[k] != c by {
            assert(t[k] == s[k + 1]);
        }
        lemma_first_index_of(t, c, n - 1);
    }
}

/// Finds the first `c` among the characters of `text` from `lo` up to `hi`;
/// gives `hi` if there is none.
pub fn find_char(text: &[char], lo: usize, hi: usize, c: char) -> (at: usize)
    requires
        lo <= hi <= text@.len(),
    ensures
        lo <= at <= hi,
        at - lo == first_index_of(text@.subrange(lo as int, hi as int), c),
{
    let mut at: usize = lo;
    while at < hi && text[at] != c
        invariant
            lo <= at <= hi <= text@.len(),
            forall|k: int| lo <= k < at ==> text@[k] != c,
        decreases hi - at,
    {
        at += 1;
    }
    proof {
        lemma_first_index_of(text@.subrange(lo as int, hi as int), c, at - lo);
    }
    at
}

/// Length of the first line of `s`: the number of characters before its
/// first line feed, or all of them if it has none.
pub open spec fn line_end(s: Seq<char>) -> nat {
    first_index_of(s, '\n')
}

/// The lines of `s`. Lines end at a line feed, which belongs to no line; a
/// text that ends with a line feed has no empty last line, and the empty text
/// has no line at all.
pub open spec fn lines(s: Seq<char>) -> Seq<Seq<char>>
    decreases s.len(),
{
    if s.len() == 0 {
        Seq::empty()
    } else {
        let n = line_end(s) as int;
        if n >= s.len() {
            seq![s]
        } else {
            seq![s.take(n)] + lines(s.skip(n + 1))
        }
    }
}

/// The pieces of `text` that a list of index pairs cuts out.
pub open spec fn pieces(text: Seq<char>, ranges: Seq<(usize, usize)>) -> Seq<Seq<char>> {
    Seq::new(ranges.len(), |i: int| text.subrange(ranges[i].0 as int, ranges[i].1 as int))
}

/// Splits `text` into its lines, each given by the index of its first
/// character and the index just past its last.
pub fn split_lines(text: &[char]) -> (ranges: Vec<(usize, usize)>)
    ensures
        pieces(text@, ranges@) == lines(text@),
        forall|i: int|
            0 <= i < ranges@.len() ==> (#[trigger] ranges@[i]).0 <= ranges@[i].1 <= text@.len(),
{
    let n = text.len();
    let mut ranges: Vec<(usize, usize)> = Vec::new();
    let mut lo: usize = 0;
    proof {
        assert(text@.skip(0) == text@);
        assert(pieces(text@, ranges@) + lines(text@.skip(0)) == lines(text@));
    }
    while lo < n
        invariant
            n == text@.len(),
            lo <= n,
            pieces(text@, ranges@) + lines(text@.skip(lo as int)) == lines(text@),
            forall|i: int|
                0 <= i < ranges@.len() ==> (#[trigger] ranges@[i]).0 <= ranges@[i].1 <= text@.len(),
        decreases n - lo,
    {
        let hi: usize = find_char(text, lo, n, '\n');
        let ghost rest = text@.skip(lo as int);
        let ghost before = pieces(text@, ranges@);
        proof {
            assert(rest == text@.subrange(lo as int, n as int));
            assert(rest.take(hi - lo) == text@.subrange(lo as int, hi as int));
        }
        ranges.push((lo, hi));
        proof {
            assert(pieces(text@, ranges@) == before + seq![text@.subrange(lo as int, hi as int)]);
            if hi < n {
                assert(rest.skip(hi - lo + 1) == text@.skip(hi + 1));
            } else {
                assert(rest == text@.subrange(lo as int, hi as int));
                assert(text@.skip(n as int).len() == 0);
                assert(before + seq![rest] + lines(text@.skip(n as int)) == before + lines(rest));
            }
        }
        lo = if hi < n { hi + 1 } else { n };
    }
    proof {
        assert(text@.skip(lo as int).len() == 0);
        assert(pieces(text@, ranges@) + lines(text@.skip(lo as int)) == pieces(text@, ranges@));
    }
    ranges
}

/// `s` without the run of `c` it starts with.
pub open spec fn strip_leading(s: Seq<char>, c: char) -> Seq<char>
    decreases s.len(),
{
    if s.len() > 0 && s.first() == c {
        strip_leading(s.drop_first(), c)
    } else {
        s
    }
}

/// Whether `s` ends with the non-empty text `pat`.
pub open spec fn ends_with(s: Seq<char>, pat: Seq<char>) -> bool {
    0 < pat.len() <= s.len() && s.skip(s.len() - pat.len()) == pat
}

/// `s` without the repetitions of `pat` it ends with.
pub open spec fn strip_trailing(s: Seq<char>, pat: Seq<char>) -> Seq<char>
    decreases s.len(),
{
    if ends_with(s, pat) {
        strip_trailing(s.take(s.len() - pat.len()), pat)
    } else {
        s
    }
}

/// Skips the run of `c` at the start of the characters of `text` from `lo`
/// up to `hi`; gives the index where the rest begins.
pub fn skip_leading(text: &[char], lo: usize, hi: usize, c: char) -> (start: usize)
    requires
        lo <= hi <= text@.len(),
    ensures
        lo <= start <= hi,
        text@.subrange(start as int, hi as int) == strip_leading(
            text@.subrange(lo as int, hi as int),
            c,
        ),
{
    let mut start: usize = lo;
    while start < hi && text[start] == c
        invariant
            lo <= start <= hi <= text@.len(),
            strip_leading(text@.subrange(lo as int, hi as int), c) == strip_leading(
                text@.subrange(start as int, hi as int),
                c,
            ),
        decreases hi - start,
    {
        proof {
            let cur = text@.subrange(start as int, hi as int);
            assert(cur.first() == text@[start as int]);
            assert(cur.drop_first() == text@.subrange(start + 1, hi as int));
        }
        start += 1;
    }
    proof {
        let cur = text@.subrange(start as int, hi as int);
        if start < hi {
            assert(cur.first() == text@[start as int]);
        }
    }
    start
}

/// Tests whether the characters of `text` from `lo` up to `hi` end with
/// `pat`.
pub fn range_ends_with(text: &[char], lo: usize, hi: usize, pat: &[char]) -> (b: bool)
    requires
        lo <= hi <= text@.len(),
    ensures
        b == ends_with(text@.subrange(lo as int, hi as int), pat@),
{
    let m = pat.len();
    if m == 0 || hi - lo < m {
        return false;
    }
    let ghost s = text@.subrange(lo as int, hi as int);
    let ghost tail = s.skip(s.len() - m);
    let mut k: usize = 0;
    while k < m
        invariant
            lo <= hi <= text@.len(),
            m == pat@.len(),
            0 < m <= hi - lo,
            k <= m,
            s == text@.subrange(lo as int, hi as int),
            tail == s.skip(s.len() - m),
            forall|j: int| 0 <= j < k ==> tail[j] == pat@[j],
        decreases m - k,
    {
        assert(tail[k as int] == text@[hi - m + k]);
        if text[hi - m + k] != pat[k] {
            return false;
        }
        k += 1;
    }
    assert(tail =~= pat@);
    true
}

/// Drops the repetitions of `pat` at the end of the characters of `text`
/// from `lo` up to `hi`; gives the index where what is left ends.
pub fn skip_trailing(text: &[char], lo: usize, hi: usize, pat: &[char]) -> (end: usize)
    requires
        lo <= hi <= text@.len(),
    ensures
        lo <= end <= hi,
        text@.subrange(lo as int, end as int) == strip_trailing(
            text@.subrange(lo as int, hi as int),
            pat@,
        ),
{
    let mut end: usize = hi;
    while range_ends_with(text, lo, end, pat)
        invariant
            lo <= end <= hi <= text@.len(),
            strip_trailing(text@.subrange(lo as int, hi as int), pat@) == strip_trailing(
                text@.subrange(lo as int, end as int),
                pat@,
            ),
        decreases end - lo,
    {
        proof {
            let cur = text@.subrange(lo as int, end as int);
            assert(cur.take(cur.len() - pat@.len()) == text@.subrange(
                lo as int,
                end - pat@.len(),
            ));
        }
        end -= pat.len();
    }
    end
}

/// Whether `c` is one of the ten ASCII digits.
pub open spec fn is_digit(c: char) -> bool {
    0x30 <= c as u32 <= 0x39
}

/// The number a digit stands for.
pub open spec fn digit_value(c: char) -> nat
    recommends
        is_digit(c),
{
    (c as u32 - 0x30) as nat
}

/// Whether `s` consists of ASCII digits only.
pub open spec fn all_digits(s: Seq<char>) -> bool {
    forall|i: int| 0 <= i < s.len() ==> is_digit(#[trigger] s[i])
}

/// The number that a run of decimal digits denotes, most significant digit
/// first; 0 for the empty run.
pub open spec fn decimal_value(s: Seq<char>) -> nat
    recommends
        all_digits(s),
    decreases s.len(),
{
    if s.len() == 0 {
        0
    } else {
        10 * decimal_value(s.drop_last()) + digit_value(s.last())
    }
}

/// The digits of an unsigned number written with an optional leading `+`.
pub open spec fn unsigned_digits(s: Seq<char>) -> Seq<char> {
    if s.len() > 0 && s.first() == '+' {
        s.skip(1)
    } else {
        s
    }
}

/// The 32-bit unsigned number that `s` denotes: an optional `+`, then one or
/// more decimal digits whose value fits in 32 bits. Any other text denotes
/// none.
pub open spec fn u32_of(s: Seq<char>) -> Option<u32> {
    let d = unsigned_digits(s);
    if d.len() > 0 && all_digits(d) && decimal_value(d) <= u32::MAX {
        Some(decimal_value(d) as u32)
    } else {
        None
    }
}

/// A run of digits denotes at least what any of its prefixes denotes.
pub proof fn lemma_decimal_value_prefix(s: Seq<char>, k: int)
    requires
        0 <= k <= s.len(),
    ensures
        decimal_value(s.take(k)) <= decimal_value(s),
    decreases s.len() - k,
{
    if k == s.len() {
        assert(s.take(k) == s);
    } else {
        lemma_decimal_value_prefix(s, k + 1);
        assert(s.take(k + 1).drop_last() == s.take(k));
    }
}

/// Reads the characters of `text` from `lo` up to `hi` as a 32-bit unsigned
/// decimal number.
pub fn parse_u32(text: &[char], lo: usize, hi: usize) -> (r: Option<u32>)
    requires
        lo <= hi <= text@.len(),
    ensures
        r == u32_of(text@.subrange(lo as int, hi as int)),
{
    let ghost whole = text@.subrange(lo as int, hi as int);
    let start: usize = if lo < hi && text[lo] == '+' { lo + 1 } else { lo };
    let ghost digits = unsigned_digits(whole);
    proof {
        if lo < hi {
            assert(whole.first() == text@[lo as int]);
        }
        assert(digits == text@.subrange(start as int, hi as int));
    }
    if start == hi {
        return None;
    }
    let mut acc: u64 = 0;
    let mut i: usize = start;
    while i < hi
        invariant
            lo <= start <= i <= hi <= text@.len(),
            digits == text@.subrange(start as int, hi as int),
            digits == unsigned_digits(text@.subrange(lo as int, hi as int)),
            digits.len() > 0,
            all_digits(digits.take(i - start)),
            acc == decimal_value(digits.take(i - start)),
            acc <= u32::MAX,
        decreases hi - i,
    {
        let u: u32 = text[i] as u32;
        proof {
            assert(digits[i - start] == text@[i as int]);
            assert(digits.take(i - start + 1).drop_last() == digits.take(i - start));
            assert(digits.take(i - start + 1).last() == text@[i as int]);
        }
        if u < 0x30 || u > 0x39 {
            assert(!is_digit(digits[i - start]));
            return None;
        }
        let next: u64 = acc * 10 + (u - 0x30) as u64;
        proof {
            assert forall|k: int| 0 <= k < i - start + 1 implies is_digit(
                #[trigger] digits.take(i - start + 1)[k],
            ) by {
                if k < i - start {
                    assert(digits.take(i - start)[k] == digits[k]);
                }
            }
        }
        if next > u32::MAX as u64 {
            proof {
                lemma_decimal_value_prefix(digits, i - start + 1);
            }
            return None;
        }
        acc = next;
        i += 1;
    }
    proof {
        assert(digits.take(hi - start) == digits);
    }
    Some(acc as u32)
}

/// The character for a digit value below ten.
pub open spec fn digit_char(d: nat) -> char
    recommends
        d < 10,
{
    ((0x30 + d) as u8) as char
}

/// The decimal digits of `n`, most significant first, without leading zeros.
pub open spec fn decimal_digits(n: nat) -> Seq<char>
    decreases n,
{
    if n < 10 {
        seq![digit_char(n)]
    } else {
        decimal_digits(n / 10).push(digit_char(n % 10))
    }
}

/// Appends the decimal digits of `n` to `s`.
pub fn push_decimal(s: &mut String, n: u32)
    ensures
        final(s)@ == old(s)@ + decimal_digits(n as nat),
    decreases n,
{
    if n >= 10 {
        push_decimal(s, n / 10);
    }
    let d: u8 = (n % 10) as u8;
    let c: char = (0x30u8 + d) as char;
    push_char(s, c);
    proof {
        if n >= 10 {
            assert(old(s)@ + decimal_digits(n as nat / 10).push(c) == (old(s)@ + decimal_digits(
                n as nat / 10,
            )).push(c));
        } else {
            assert(old(s)@ + seq![c] == old(s)@.push(c));
        }
    }
}

/// `n` written in decimal.
pub fn u32_to_string(n: u32) -> (s: String)
    ensures
        s@ == decimal_digits(n as nat),
{
    let mut s = String::new();
    push_decimal(&mut s, n);
    assert(Seq::<char>::empty() + decimal_digits(n as nat) == decimal_digits(n as nat));
    s
}

/// Writing a number in decimal gives digits only, and these denote the
/// number.
pub proof fn lemma_decimal_digits_value(n: nat)
    ensures
        decimal_digits(n).len() > 0,
        all_digits(decimal_digits(n)),
        decimal_value(decimal_digits(n)) == n,
    decreases n,
{
    if n < 10 {
        let s = decimal_digits(n);
        assert(is_digit(s[0]));
        assert(s.drop_last().len() == 0);
        assert(decimal_value(s.drop_last()) == 0);
        assert(digit_value(s.last()) == n);
    } else {
        lemma_decimal_digits_value(n / 10);
        let p = decimal_digits(n / 10);
        let s = decimal_digits(n);
        assert(s.drop_last() == p);
        assert(is_digit(digit_char(n % 10)));
        assert(digit_value(s.last()) == n % 10);
        assert forall|i: int| 0 <= i < s.len() implies is_digit(#[trigger] s[i]) by {
            if i < p.len() {
                assert(s[i] == p[i]);
            }
        }
    }
}

/// Reading back what was written gives the number again.
pub proof fn lemma_u32_roundtrip(n: u32)
    ensures
        u32_of(decimal_digits(n as nat)) == Some(n),
{
    lemma_decimal_digits_value(n as nat);
    let s = decimal_digits(n as nat);
    assert(is_digit(s[0]));
    assert(s.first() != '+');
}

} // verus!
