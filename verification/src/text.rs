//! Text as the rest of the library needs it: white space, lines, prefixes and
//! decimal numerals.

use vstd::prelude::*;
use vstd::string::StrSliceExecFns;
use vstd::string::StringExecFns;
use vstd::string::StringSliceAdditionalSpecFns;
use vstd::utf8::*;

verus! {

/// The characters with the Unicode property White_Space.
pub open spec fn white_space(c: char) -> bool {
    ||| '\u{9}' <= c <= '\u{d}'
    ||| c == ' '
    ||| c == '\u{85}'
    ||| c == '\u{a0}'
    ||| c == '\u{1680}'
    ||| '\u{2000}' <= c <= '\u{200a}'
    ||| c == '\u{2028}'
    ||| c == '\u{2029}'
    ||| c == '\u{202f}'
    ||| c == '\u{205f}'
    ||| c == '\u{3000}'
}

/// `s` from its first character on that is not white space.
pub open spec fn trimmed_start(s: Seq<char>) -> Seq<char>
    decreases s.len(),
{
    if s.len() > 0 && white_space(s.first()) {
        trimmed_start(s.drop_first())
    } else {
        s
    }
}

/// `s` up to its last character that is not white space.
pub open spec fn trimmed_end(s: Seq<char>) -> Seq<char>
    decreases s.len(),
{
    if s.len() > 0 && white_space(s.last()) {
        trimmed_end(s.drop_last())
    } else {
        s
    }
}

/// `s` without the white space at its two ends.
pub open spec fn trimmed(s: Seq<char>) -> Seq<char> {
    trimmed_end(trimmed_start(s))
}

/// What is trimmed from the start of `s` is white space, and what is left does not start
/// with white space.
pub proof fn lemma_trimmed_start(s: Seq<char>)
    ensures
        ({
            let rest = trimmed_start(s);
            let k = s.len() - rest.len();
            &&& 0 <= k
            &&& rest == s.skip(k)
            &&& forall|i: int| 0 <= i < k ==> white_space(#[trigger] s[i])
            &&& rest.len() > 0 ==> !white_space(rest[0])
        }),
    decreases s.len(),
{
    let rest = trimmed_start(s);
    let k = s.len() - rest.len();
    if s.len() > 0 && white_space(s.first()) {
        let tail = s.drop_first();
        lemma_trimmed_start(tail);
        assert(tail.skip(k - 1) =~= s.skip(k));
        assert forall|i: int| 0 <= i < k implies white_space(#[trigger] s[i]) by {
            if i > 0 {
                assert(s[i] == tail[i - 1]);
            }
        }
    } else {
        assert(s.skip(0) =~= s);
    }
}

/// Trimming the end of what does not start with white space leaves its start.
pub proof fn lemma_trimmed_end_keeps_start(s: Seq<char>)
    requires
        s.len() > 0,
        !white_space(s[0]),
    ensures
        trimmed_end(s).len() > 0,
        trimmed_end(s)[0] == s[0],
        !white_space(trimmed_end(s).last()),
    decreases s.len(),
{
    if white_space(s.last()) {
        lemma_trimmed_end_keeps_start(s.drop_last());
    }
}

/// A trimmed text neither starts nor ends with white space.
pub proof fn law_trimmed_ends(s: Seq<char>)
    ensures
        trimmed(s).len() > 0 ==> !white_space(trimmed(s).first()) && !white_space(
            trimmed(s).last(),
        ),
{
    lemma_trimmed_start(s);
    if trimmed_start(s).len() > 0 {
        lemma_trimmed_end_keeps_start(trimmed_start(s));
    }
}

/// Whether `c` is white space.
fn is_white_space(c: char) -> (yes: bool)
    ensures
        yes == white_space(c),
{
    ('\u{9}' <= c && c <= '\u{d}') || c == ' ' || c == '\u{85}' || c == '\u{a0}' || c == '\u{1680}'
        || ('\u{2000}' <= c && c <= '\u{200a}') || c == '\u{2028}' || c == '\u{2029}' || c
        == '\u{202f}' || c == '\u{205f}' || c == '\u{3000}'
}

/// The text without the white space at its two ends.
pub fn trim(s: &str) -> (rest: &str)
    ensures
        rest@ == trimmed(s@),
{
    let n: usize = s.unicode_len();
    let mut start: usize = 0;
    assert(s@.skip(0) =~= s@);
    while start < n && is_white_space(s.get_char(start))
        invariant
            start <= n == s@.len(),
            trimmed_start(s@) == trimmed_start(s@.skip(start as int)),
        decreases n - start,
    {
        assert(s@.skip(start as int).drop_first() =~= s@.skip(start + 1));
        start = start + 1;
    }
    assert(trimmed_start(s@) == s@.skip(start as int));
    let mut end: usize = n;
    assert(s@.subrange(start as int, n as int) =~= s@.skip(start as int));
    while start < end && is_white_space(s.get_char(end - 1))
        invariant
            start <= end <= n == s@.len(),
            trimmed(s@) == trimmed_end(s@.subrange(start as int, end as int)),
        decreases end - start,
    {
        assert(s@.subrange(start as int, end as int).drop_last() =~= s@.subrange(
            start as int,
            end - 1,
        ));
        end = end - 1;
    }
    s.substring_char(start, end)
}

/// `s` without the number signs at its start.
pub open spec fn unhashed(s: Seq<char>) -> Seq<char>
    decreases s.len(),
{
    if s.len() > 0 && s.first() == '#' {
        unhashed(s.drop_first())
    } else {
        s
    }
}

/// The text without the number signs at its start.
pub fn strip_hashes(s: &str) -> (rest: &str)
    ensures
        rest@ == unhashed(s@),
{
    let n: usize = s.unicode_len();
    let mut start: usize = 0;
    assert(s@.skip(0) =~= s@);
    while start < n && s.get_char(start) == '#'
        invariant
            start <= n == s@.len(),
            unhashed(s@) == unhashed(s@.skip(start as int)),
        decreases n - start,
    {
        assert(s@.skip(start as int).drop_first() =~= s@.skip(start + 1));
        start = start + 1;
    }
    assert(s@.subrange(start as int, n as int) =~= s@.skip(start as int));
    s.substring_char(start, n)
}

/// Where the first line feed of `s` stands; the length of `s` if there is none.
pub open spec fn line_feed_at(s: Seq<char>) -> int
    decreases s.len(),
{
    if s.len() == 0 || s.first() == '\n' {
        0
    } else {
        1 + line_feed_at(s.drop_first())
    }
}

/// The first line of `s` without its ending, which is a line feed or a carriage
/// return with a line feed behind it.
pub open spec fn first_line_of(s: Seq<char>) -> Seq<char> {
    let end = line_feed_at(s);
    if 0 < end < s.len() && s[end - 1] == '\r' {
        s.take(end - 1)
    } else {
        s.take(end)
    }
}

/// The first line of the text without its ending; empty if the text is.
pub fn first_line(s: &str) -> (line: &str)
    ensures
        line@ == first_line_of(s@),
{
    let n: usize = s.unicode_len();
    let mut end: usize = 0;
    assert(s@.skip(0) =~= s@);
    while end < n && s.get_char(end) != '\n'
        invariant
            end <= n == s@.len(),
            line_feed_at(s@) == end + line_feed_at(s@.skip(end as int)),
        decreases n - end,
    {
        assert(s@.skip(end as int).drop_first() =~= s@.skip(end + 1));
        end = end + 1;
    }
    if 0 < end && end < n && s.get_char(end - 1) == '\r' {
        s.substring_char(0, end - 1)
    } else {
        s.substring_char(0, end)
    }
}

/// The first `limit` characters of `s`, or all of it if it has fewer.
pub open spec fn prefix_of(s: Seq<char>, limit: int) -> Seq<char> {
    if s.len() <= limit {
        s
    } else {
        s.take(limit)
    }
}

/// The first `limit` characters of the text, or all of it if it has fewer.
pub fn prefix(s: &str, limit: usize) -> (start: &str)
    ensures
        start@ == prefix_of(s@, limit as int),
{
    let n: usize = s.unicode_len();
    if n <= limit {
        assert(s@.subrange(0, n as int) =~= s@);
        s.substring_char(0, n)
    } else {
        s.substring_char(0, limit)
    }
}

/// Whether the two texts are the same.
pub fn same_text(a: &str, b: &str) -> (same: bool)
    ensures
        same == (a@ == b@),
{
    a.to_owned() == b.to_owned()
}

/// What stands behind `prefix` in the text; none if the text does not start with it.
pub fn after_prefix<'a>(s: &'a str, prefix: &str) -> (rest: Option<&'a str>)
    ensures
        match rest {
            Some(r) => prefix@.is_prefix_of(s@) && r@ == s@.skip(prefix@.len() as int),
            None => !prefix@.is_prefix_of(s@),
        },
{
    let n: usize = s.unicode_len();
    let k: usize = prefix.unicode_len();
    if n < k {
        return None;
    }
    if same_text(s.substring_char(0, k), prefix) {
        assert(s@.subrange(k as int, n as int) =~= s@.skip(k as int));
        Some(s.substring_char(k, n))
    } else {
        None
    }
}

/// Whether `s` has no decimal digit of ASCII.
pub open spec fn digitless(s: Seq<char>) -> bool {
    forall|i: int| 0 <= i < s.len() ==> !('0' <= #[trigger] s[i] <= '9')
}

/// The decimal digit `d`.
pub open spec fn digit(d: nat) -> char {
    (48 + d) as char
}

/// The decimal numeral of `n`, without leading zeros.
pub open spec fn numeral(n: nat) -> Seq<char>
    decreases n,
{
    if n < 10 {
        seq![digit(n)]
    } else {
        numeral(n / 10).push(digit(n % 10))
    }
}

/// The decimal numeral of `n`.
pub fn decimal(n: u64) -> (text: String)
    ensures
        text@ == numeral(n as nat),
    decreases n,
{
    let digits = "0123456789";
    proof {
        reveal_strlit("0123456789");
    }
    let last: usize = (n % 10) as usize;
    let mut text = if n < 10 {
        String::new()
    } else {
        decimal(n / 10)
    };
    text.append(digits.substring_char(last, last + 1));
    assert(digits@[last as int] == digit(last as nat));
    assert(text@ =~= numeral(n as nat));
    text
}

/// How many bytes `s` takes in UTF-8.
pub open spec fn byte_count(s: Seq<char>) -> nat {
    encode_utf8(s).len()
}

/// `s` without as many characters at its end as it takes for the rest to fit
/// into `limit` bytes of UTF-8.
pub open spec fn clipped(s: Seq<char>, limit: nat) -> Seq<char>
    decreases s.len(),
{
    if byte_count(s) <= limit || s.len() == 0 {
        s
    } else {
        clipped(s.drop_last(), limit)
    }
}

proof fn lemma_encode_concat(a: Seq<char>, b: Seq<char>)
    ensures
        encode_utf8(a + b) == encode_utf8(a) + encode_utf8(b),
    decreases a.len(),
{
    if a.len() == 0 {
        assert(a + b =~= b);
        assert(encode_utf8(a) + encode_utf8(b) =~= encode_utf8(b));
    } else {
        assert((a + b).drop_first() =~= a.drop_first() + b);
        lemma_encode_concat(a.drop_first(), b);
        assert(encode_utf8(a + b) =~= encode_utf8(a) + encode_utf8(b));
    }
}

proof fn lemma_prefix_ends_at_boundary(s: Seq<char>, k: int)
    requires
        0 <= k <= s.len(),
    ensures
        byte_count(s.take(k)) <= byte_count(s),
        is_char_boundary(encode_utf8(s), byte_count(s.take(k)) as int),
    decreases k,
{
    let bytes = encode_utf8(s);
    assert(s =~= s.take(k) + s.skip(k));
    lemma_encode_concat(s.take(k), s.skip(k));
    encode_utf8_valid_utf8(s);
    if k == 0 {
        is_char_boundary_start_end_of_seq(bytes);
    } else {
        let rest = s.drop_first();
        encode_utf8_first_scalar(s);
        assert(pop_first_scalar(bytes) =~= encode_utf8(rest));
        lemma_prefix_ends_at_boundary(rest, k - 1);
        assert(s.take(k).drop_first() =~= rest.take(k - 1));
        assert(s.take(k)[0] == s[0]);
    }
}

proof fn lemma_longer_prefix_takes_more(s: Seq<char>, j: int, k: int)
    requires
        0 <= j < k <= s.len(),
    ensures
        byte_count(s.take(j)) < byte_count(s.take(k)),
{
    let more = s.subrange(j, k);
    assert(s.take(k) =~= s.take(j) + more);
    lemma_encode_concat(s.take(j), more);
    assert(encode_utf8(more).len() > 0);
}

proof fn lemma_clipped_is_longest_fitting(s: Seq<char>, n: int, k: int, limit: nat)
    requires
        0 <= k <= n <= s.len(),
        byte_count(s.take(k)) <= limit,
        forall|j: int| k < j <= s.len() ==> byte_count(#[trigger] s.take(j)) > limit,
    ensures
        clipped(s.take(n), limit) == s.take(k),
    decreases n - k,
{
    if n > k {
        assert(s.take(n).drop_last() =~= s.take(n - 1));
        lemma_clipped_is_longest_fitting(s, n - 1, k, limit);
    }
}

/// A clipped text fits, is a start of the text, and is the text itself if that fits.
/// No longer start of the text fits.
pub proof fn law_clipped_fits(s: Seq<char>, limit: nat)
    ensures
        byte_count(clipped(s, limit)) <= limit,
        clipped(s, limit).is_prefix_of(s),
        byte_count(s) <= limit ==> clipped(s, limit) == s,
        forall|k: int|
            clipped(s, limit).len() < k <= s.len() ==> byte_count(#[trigger] s.take(k)) > limit,
    decreases s.len(),
{
    assert(s.take(s.len() as int) =~= s);
    if byte_count(s) > limit && s.len() > 0 {
        let rest = s.drop_last();
        law_clipped_fits(rest, limit);
        assert forall|k: int|
            clipped(s, limit).len() < k <= s.len() implies byte_count(#[trigger] s.take(k))
            > limit by {
            if k < s.len() {
                assert(s.take(k) =~= rest.take(k));
            }
        }
    }
}

/// The longest start of the text that fits into `limit` bytes of UTF-8 and ends
/// between two characters.
pub fn clip(s: &str, limit: usize) -> (start: &str)
    ensures
        start@ == clipped(s@, limit as nat),
{
    let count: usize = s.as_bytes().len();
    let mut end: usize = if count < limit {
        count
    } else {
        limit
    };
    let ghost bytes = s.spec_bytes();
    proof {
        encode_utf8_valid_utf8(s@);
    }
    let ghost top = end as int;
    while end > 0 && !s.is_char_boundary(end)
        invariant
            bytes == s.spec_bytes(),
            bytes == encode_utf8(s@),
            valid_utf8(bytes),
            0 <= end <= top <= bytes.len(),
            forall|i: int| end < i <= top ==> !#[trigger] is_char_boundary(bytes, i),
        decreases end,
    {
        end = end - 1;
    }
    proof {
        is_char_boundary_start_end_of_seq(bytes);
    }
    let (start, rest) = s.split_at(end);
    proof {
        let k = start@.len() as int;
        decode_utf8_split(bytes, end as int);
        encode_utf8_decode_utf8(s@);
        encode_utf8_decode_utf8(start@);
        encode_utf8_decode_utf8(rest@);
        assert(s@ =~= start@ + rest@);
        assert(s@.take(k) =~= start@);
        assert(byte_count(s@.take(k)) == end);
        assert forall|j: int| k < j <= s@.len() implies byte_count(#[trigger] s@.take(j))
            > limit by {
            lemma_longer_prefix_takes_more(s@, k, j);
            lemma_prefix_ends_at_boundary(s@, j);
        }
        assert(s@.take(s@.len() as int) =~= s@);
        lemma_clipped_is_longest_fitting(s@, s@.len() as int, k, limit as nat);
    }
    start
}

/// The two texts one behind the other.
pub fn concat2(a: &str, b: &str) -> (text: String)
    ensures
        text@ == a@ + b@,
{
    let mut text = a.to_owned();
    text.append(b);
    text
}

/// The three texts one behind the other.
pub fn concat3(a: &str, b: &str, c: &str) -> (text: String)
    ensures
        text@ == a@ + b@ + c@,
{
    let mut text = a.to_owned();
    text.append(b);
    text.append(c);
    text
}

/// The four texts one behind the other.
pub fn concat4(a: &str, b: &str, c: &str, d: &str) -> (text: String)
    ensures
        text@ == a@ + b@ + c@ + d@,
{
    let mut text = concat3(a, b, c);
    text.append(d);
    text
}

/// The letter of ASCII in upper case; any other character as it is.
pub open spec fn ascii_upper(c: char) -> char {
    if 'a' <= c <= 'z' {
        (c as u32 - 32) as char
    } else {
        c
    }
}

/// The text in upper case as Unicode defines it.
pub uninterp spec fn uppercased(s: Seq<char>) -> Seq<char>;

/// `str::to_uppercase`. What it gives depends on the text alone, and for a text of ASCII
/// it is the text with each of its letters in upper case.
#[verifier::external_body]
pub(crate) fn to_upper(s: &str) -> (upper: String)
    ensures
        upper@ == uppercased(s@),
        is_ascii_chars(s@) ==> upper@ == s@.map_values(|c: char| ascii_upper(c)),
{
    s.to_uppercase()
}

proof fn lemma_trimmed_end(s: Seq<char>)
    ensures
        ({
            let rest = trimmed_end(s);
            &&& rest.len() <= s.len()
            &&& rest == s.take(rest.len() as int)
            &&& forall|i: int| rest.len() <= i < s.len() ==> white_space(#[trigger] s[i])
            &&& rest.len() > 0 ==> !white_space(rest.last())
        }),
    decreases s.len(),
{
    if s.len() > 0 && white_space(s.last()) {
        let front = s.drop_last();
        lemma_trimmed_end(front);
        let rest = trimmed_end(s);
        assert(front.take(rest.len() as int) =~= s.take(rest.len() as int));
        assert forall|i: int| rest.len() <= i < s.len() implies white_space(#[trigger] s[i]) by {
            if i < front.len() {
                assert(s[i] == front[i]);
            }
        }
    } else {
        assert(s.take(s.len() as int) =~= s);
    }
}

/// A trimmed text is what lies between white space: it is a part of the text, all that
/// stands before and behind that part is white space, and the part itself neither starts
/// nor ends with any.
pub proof fn law_trimmed_is_what_lies_between(s: Seq<char>)
    ensures
        exists|i: int, j: int|
            0 <= i <= j <= s.len() && trimmed(s) == #[trigger] s.subrange(i, j) && (forall|k: int|
                0 <= k < i || j <= k < s.len() ==> white_space(#[trigger] s[k])) && (i < j
                ==> !white_space(s[i]) && !white_space(s[j - 1])),
{
    lemma_trimmed_start(s);
    let front = trimmed_start(s);
    lemma_trimmed_end(front);
    law_trimmed_ends(s);
    let i = s.len() - front.len();
    let j = i + trimmed(s).len();
    assert(trimmed(s) =~= s.subrange(i, j));
    assert forall|k: int| 0 <= k < i || j <= k < s.len() implies white_space(#[trigger] s[k]) by {
        if k >= j {
            assert(s[k] == front[k - i]);
        }
    }
    if i < j {
        assert(trimmed(s).first() == s[i]);
        assert(trimmed(s).last() == s[j - 1]);
    }
}

/// Stripping takes away number signs from the start, all of them, and nothing else.
pub proof fn law_only_hashes_are_stripped(s: Seq<char>)
    ensures
        ({
            let rest = unhashed(s);
            let k = s.len() - rest.len();
            &&& 0 <= k
            &&& rest == s.skip(k)
            &&& forall|i: int| 0 <= i < k ==> #[trigger] s[i] == '#'
            &&& rest.len() > 0 ==> rest[0] != '#'
        }),
    decreases s.len(),
{
    let rest = unhashed(s);
    let k = s.len() - rest.len();
    if s.len() > 0 && s.first() == '#' {
        let tail = s.drop_first();
        law_only_hashes_are_stripped(tail);
        assert(tail.skip(k - 1) =~= s.skip(k));
        assert forall|i: int| 0 <= i < k implies #[trigger] s[i] == '#' by {
            if i > 0 {
                assert(s[i] == tail[i - 1]);
            }
        }
    } else {
        assert(s.skip(0) =~= s);
    }
}

proof fn lemma_line_feed_at(s: Seq<char>)
    ensures
        0 <= line_feed_at(s) <= s.len(),
        line_feed_at(s) < s.len() ==> s[line_feed_at(s)] == '\n',
        forall|i: int| 0 <= i < line_feed_at(s) ==> #[trigger] s[i] != '\n',
    decreases s.len(),
{
    if s.len() > 0 && s.first() != '\n' {
        let tail = s.drop_first();
        lemma_line_feed_at(tail);
        assert forall|i: int| 0 <= i < line_feed_at(s) implies #[trigger] s[i] != '\n' by {
            if i > 0 {
                assert(s[i] == tail[i - 1]);
            }
        }
    }
}

/// The first line is the start of the text up to its first line ending: it holds no line
/// feed, and either it is the whole text, or a line feed stands behind it and no carriage
/// return before that, or a carriage return and a line feed stand behind it.
pub proof fn law_first_line(s: Seq<char>)
    ensures
        ({
            let line = first_line_of(s);
            let n = line.len() as int;
            &&& line.is_prefix_of(s)
            &&& forall|i: int| 0 <= i < n ==> #[trigger] s[i] != '\n'
            &&& (n == s.len()) || (n < s.len() && s[n] == '\n' && (n > 0 ==> s[n - 1] != '\r')) || (
            n + 1 < s.len() && s[n] == '\r' && s[n + 1] == '\n')
        }),
{
    lemma_line_feed_at(s);
}

/// The number that decimal digits stand for.
pub open spec fn decimal_value(digits: Seq<char>) -> int
    decreases digits.len(),
{
    if digits.len() == 0 {
        0
    } else {
        10 * decimal_value(digits.drop_last()) + (digits.last() as int - '0' as int)
    }
}

/// The numeral of a number stands for that number, is made of decimal digits, and has no
/// leading zero.
pub proof fn law_numeral_stands_for_its_number(n: nat)
    ensures
        decimal_value(numeral(n)) == n,
        numeral(n).len() > 0,
        forall|i: int| 0 <= i < numeral(n).len() ==> '0' <= #[trigger] numeral(n)[i] <= '9',
        n > 0 ==> numeral(n)[0] != '0',
    decreases n,
{
    reveal_with_fuel(decimal_value, 2);
    let digits = numeral(n);
    if n >= 10 {
        law_numeral_stands_for_its_number(n / 10);
        let front = numeral(n / 10);
        assert(digits == front.push(digit(n % 10)));
        assert(digits.drop_last() =~= front);
        assert forall|i: int| 0 <= i < digits.len() implies '0' <= #[trigger] digits[i] <= '9' by {
            if i < front.len() {
                assert(digits[i] == front[i]);
            }
        }
        assert(digits[0] == front[0]);
    } else {
        assert(digits == seq![digit(n)]);
        assert(digits.drop_last() =~= Seq::empty());
    }
}

/// A prefix has as many characters as it may have and the text has, and they are those of
/// the text.
pub proof fn law_prefix(s: Seq<char>, limit: int)
    requires
        0 <= limit,
    ensures
        prefix_of(s, limit).is_prefix_of(s),
        prefix_of(s, limit).len() <= limit,
        prefix_of(s, limit).len() == limit || prefix_of(s, limit) == s,
{
}

}
