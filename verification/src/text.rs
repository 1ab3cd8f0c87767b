//! Text as sequences of characters: searching, splitting, trimming and decimal numbers.
use vstd::prelude::*;
use vstd::utf8::{decode_utf8, is_ascii_chars, valid_utf8};

verus! {

/// A character with Unicode's `White_Space` property.
pub open spec fn is_white(c: char) -> bool {
    ||| '\u{9}' <= c <= '\u{d}'
    ||| c == ' '
    ||| c == '\u{85}'
    ||| c == '\u{a0}'
    ||| c == '\u{1680}'
    ||| '\u{2000}' <= c <= '\u{200a}'
    ||| c == '\u{2028}'
    ||| c == '\u{2029}'
    ||| c == '\u{202f}'
    ||| c == '\u{205f}'
    ||| c == '\u{3000}'
}

/// A decimal digit.
pub open spec fn is_digit(c: char) -> bool {
    '0' <= c <= '9'
}

/// The number a decimal digit stands for.
pub open spec fn digit_of(c: char) -> nat {
    (c as int - '0' as int) as nat
}

/// Every character is a decimal digit.
pub open spec fn all_digits(s: Seq<char>) -> bool {
    forall|i: int| 0 <= i < s.len() ==> is_digit(#[trigger] s[i])
}

/// The number a run of decimal digits stands for, most significant first.
pub open spec fn digits_value(s: Seq<char>) -> nat
    decreases s.len(),
{
    if s.len() == 0 {
        0
    } else {
        digits_value(s.drop_last()) * 10 + digit_of(s.last())
    }
}

/// A non-empty run of digits standing for a number of at most `max`.
pub open spec fn plain_number(s: Seq<char>, max: nat) -> Option<nat> {
    if s.len() > 0 && all_digits(s) && digits_value(s) <= max {
        Some(digits_value(s))
    } else {
        None
    }
}

/// An unsigned number of at most `max`, which may carry a leading plus sign.
pub open spec fn number(s: Seq<char>, max: nat) -> Option<nat> {
    if s.len() > 0 && s[0] == '+' {
        plain_number(s.skip(1), max)
    } else {
        plain_number(s, max)
    }
}

/// The digit that stands for a number below ten.
pub open spec fn digit_char(n: nat) -> char {
    ('0' as int + n) as char
}

/// A number in decimal, without leading zeros.
pub open spec fn decimal(n: nat) -> Seq<char>
    decreases n,
{
    if n < 10 {
        seq![digit_char(n)]
    } else {
        decimal(n / 10).push(digit_char(n % 10))
    }
}

/// Position of the first `c`, or the length when there is none.
pub open spec fn first_of(s: Seq<char>, c: char) -> nat
    decreases s.len(),
{
    if s.len() == 0 || s[0] == c {
        0
    } else {
        1 + first_of(s.skip(1), c)
    }
}

/// The pieces between the separators, always at least one.
pub open spec fn fields(s: Seq<char>, sep: char) -> Seq<Seq<char>>
    decreases s.len(),
{
    let k = first_of(s, sep);
    if k >= s.len() {
        seq![s]
    } else {
        seq![s.take(k as int)] + fields(s.skip(k as int + 1), sep)
    }
}

/// Position of the last `c`, or minus one when there is none.
pub open spec fn last_of(s: Seq<char>, c: char) -> int
    decreases s.len(),
{
    if s.len() == 0 {
        -1
    } else if s.last() == c {
        s.len() - 1
    } else {
        last_of(s.drop_last(), c)
    }
}

/// Position of the first carriage return with a line feed behind it, or the length when there is
/// none.
pub open spec fn line_end(s: Seq<char>) -> nat
    decreases s.len(),
{
    if s.len() < 2 {
        s.len()
    } else if s[0] == '\r' && s[1] == '\n' {
        0
    } else {
        1 + line_end(s.skip(1))
    }
}

/// The pieces between the line ends, always at least one.
pub open spec fn lines(s: Seq<char>) -> Seq<Seq<char>>
    decreases s.len(),
{
    let k = line_end(s);
    if k + 2 > s.len() {
        seq![s]
    } else {
        seq![s.take(k as int)] + lines(s.skip(k as int + 2))
    }
}

/// Whether `p` stands in `s` at position `i`.
pub open spec fn occurs_at(s: Seq<char>, p: Seq<char>, i: int) -> bool {
    0 <= i && i + p.len() <= s.len() && s.subrange(i, i + p.len()) == p
}

/// Whether `p` stands anywhere in `s`.
pub open spec fn occurs(s: Seq<char>, p: Seq<char>) -> bool {
    exists|i: int| #[trigger] occurs_at(s, p, i)
}

/// Whether `s` ends in `p`.
pub open spec fn ends(s: Seq<char>, p: Seq<char>) -> bool {
    occurs_at(s, p, s.len() - p.len())
}

/// Whether `s` begins with `p`.
pub open spec fn begins(s: Seq<char>, p: Seq<char>) -> bool {
    occurs_at(s, p, 0)
}

/// Text without its leading white space.
pub open spec fn trimmed_start(s: Seq<char>) -> Seq<char>
    decreases s.len(),
{
    if s.len() > 0 && is_white(s[0]) {
        trimmed_start(s.skip(1))
    } else {
        s
    }
}

/// Text without its trailing white space.
pub open spec fn trimmed_end(s: Seq<char>) -> Seq<char>
    decreases s.len(),
{
    if s.len() > 0 && is_white(s.last()) {
        trimmed_end(s.drop_last())
    } else {
        s
    }
}

/// Text without its surrounding white space.
pub open spec fn trimmed(s: Seq<char>) -> Seq<char> {
    trimmed_end(trimmed_start(s))
}

/// Text without one trailing `c`, where it ends in one.
pub open spec fn without_last(s: Seq<char>, c: char) -> Seq<char> {
    if s.len() > 0 && s.last() == c {
        s.drop_last()
    } else {
        s
    }
}

/// Text without one leading `c`, where it begins with one.
pub open spec fn without_first(s: Seq<char>, c: char) -> Seq<char> {
    if s.len() > 0 && s[0] == c {
        s.skip(1)
    } else {
        s
    }
}

/// Texts with a separator between them.
pub open spec fn joined(parts: Seq<Seq<char>>, sep: Seq<char>) -> Seq<char>
    decreases parts.len(),
{
    if parts.len() == 0 {
        Seq::empty()
    } else if parts.len() == 1 {
        parts[0]
    } else {
        joined(parts.drop_last(), sep) + sep + parts.last()
    }
}

/// The lower-case form of an ASCII letter, any other character as it is.
pub open spec fn ascii_lower(c: char) -> char {
    if 'A' <= c <= 'Z' {
        (c as int + 32) as char
    } else {
        c
    }
}

/// Every ASCII letter in lower case.
pub open spec fn ascii_lowered(s: Seq<char>) -> Seq<char> {
    Seq::new(s.len(), |i: int| ascii_lower(s[i]))
}

/// What `str::to_lowercase` makes of a text.
pub uninterp spec fn lowered(s: Seq<char>) -> Seq<char>;

/// What the `Debug` form of a `str` is: quoted, with what cannot be shown escaped.
pub uninterp spec fn quoted(s: Seq<char>) -> Seq<char>;

/// Whether every character is printable ASCII and neither a quote nor a backslash.
pub open spec fn is_plain(s: Seq<char>) -> bool {
    forall|i: int|
        0 <= i < s.len() ==> ' ' <= #[trigger] s[i] <= '~' && s[i] != '"' && s[i] != '\''
            && s[i] != '\\'
}

/// A text in double quotes.
pub open spec fn in_quotes(s: Seq<char>) -> Seq<char> {
    if is_plain(s) {
        "\""@ + s + "\""@
    } else {
        quoted(s)
    }
}

/// A text in lower case.
pub open spec fn lower_case(s: Seq<char>) -> Seq<char> {
    if is_ascii_chars(s) {
        ascii_lowered(s)
    } else {
        lowered(s)
    }
}

/// Calls `str::to_lowercase`, which maps each character to its lower-case form as Unicode gives
/// it. Of ASCII text it is said that each letter is mapped and everything else kept; of other text
/// only that the result depends on the text alone.
#[verifier::external_body]
pub(crate) fn lowercase(s: &str) -> (r: String)
    ensures
        is_ascii_chars(s@) ==> r@ == ascii_lowered(s@),
        !is_ascii_chars(s@) ==> r@ == lowered(s@),
{
    s.to_lowercase()
}

/// Formats a text through `str`'s `Debug`. Of printable ASCII without quotes and backslashes it is
/// said that it stands in double quotes as it is; of other text only that the result depends on the
/// text alone.
#[verifier::external_body]
pub(crate) fn debug(s: &str) -> (r: String)
    ensures
        is_plain(s@) ==> r@ == "\""@ + s@ + "\""@,
        !is_plain(s@) ==> r@ == quoted(s@),
{
    format!("{s:?}")
}

/// `first_of` is what its name says.
pub proof fn lemma_first_of(s: Seq<char>, c: char)
    ensures
        first_of(s, c) <= s.len(),
        forall|j: int| 0 <= j < first_of(s, c) ==> s[j] != c,
        first_of(s, c) < s.len() ==> s[first_of(s, c) as int] == c,
    decreases s.len(),
{
    if s.len() > 0 && s[0] != c {
        let rest = s.skip(1);
        lemma_first_of(rest, c);
        assert forall|j: int| 0 <= j < first_of(s, c) implies s[j] != c by {
            if j > 0 {
                assert(rest[j - 1] == s[j]);
            }
        }
    }
}

/// The first position is the only one with nothing before it.
pub proof fn lemma_first_of_is(s: Seq<char>, c: char, k: int)
    requires
        0 <= k <= s.len(),
        forall|j: int| 0 <= j < k ==> s[j] != c,
        k < s.len() ==> s[k] == c,
    ensures
        first_of(s, c) == k,
{
    lemma_first_of(s, c);
    let f = first_of(s, c) as int;
    if f < k {
        assert(s[f] != c);
    }
    if k < f {
        assert(s[k] != c);
    }
}

/// A number reads back from its decimal form.
pub proof fn law_decimal_reads_back(n: nat)
    ensures
        decimal(n).len() > 0,
        all_digits(decimal(n)),
        digits_value(decimal(n)) == n,
        forall|max: nat| n <= max ==> number(decimal(n), max) == Some(n),
    decreases n,
{
    if n < 10 {
        assert(seq![digit_char(n)].drop_last() =~= Seq::<char>::empty());
        assert(digits_value(Seq::<char>::empty()) == 0);
    } else {
        law_decimal_reads_back(n / 10);
        assert(decimal(n).drop_last() =~= decimal(n / 10));
        assert forall|i: int| 0 <= i < decimal(n).len() implies is_digit(
            #[trigger] decimal(n)[i],
        ) by {
            if i < decimal(n / 10).len() {
                assert(decimal(n)[i] == decimal(n / 10)[i]);
            }
        }
    }
    assert(is_digit(decimal(n)[0]));
}

/// The characters of a text.
pub fn chars_of(s: &str) -> (r: Vec<char>)
    ensures
        r@ == s@,
{
    let mut r: Vec<char> = Vec::new();
    for c in it: s.chars()
        invariant
            r@ == it.seq().take(it.index()),
            it.seq() == s@,
    {
        r.push(c);
    }
    r
}

/// Whether two texts are the same.
pub fn same(a: &str, b: &str) -> (r: bool)
    ensures
        r == (a@ == b@),
{
    let x = chars_of(a);
    let y = chars_of(b);
    if x.len() != y.len() {
        return false;
    }
    let mut i: usize = 0;
    while i < x.len()
        invariant
            x@ == a@,
            y@ == b@,
            x.len() == y.len(),
            i <= x.len(),
            forall|j: int| 0 <= j < i ==> x@[j] == y@[j],
        decreases x.len() - i,
    {
        if x[i] != y[i] {
            assert(a@[i as int] != b@[i as int]);
            return false;
        }
        i += 1;
    }
    assert(a@ =~= b@);
    true
}

/// Whether a character is white space.
pub fn white(c: char) -> (r: bool)
    ensures
        r == is_white(c),
{
    ('\u{9}' <= c && c <= '\u{d}') || c == ' ' || c == '\u{85}' || c == '\u{a0}' || c == '\u{1680}'
        || ('\u{2000}' <= c && c <= '\u{200a}') || c == '\u{2028}' || c == '\u{2029}' || c
        == '\u{202f}' || c == '\u{205f}' || c == '\u{3000}'
}

proof fn lemma_trim_window(s: Seq<char>, lo: int, hi: int)
    requires
        0 <= lo <= hi <= s.len(),
        forall|i: int| 0 <= i < lo ==> is_white(s[i]),
        lo < s.len() ==> !is_white(s[lo]) || lo == hi,
        forall|i: int| hi <= i < s.len() ==> is_white(s[i]),
        lo < hi ==> !is_white(s[lo]) && !is_white(s[hi - 1]),
        lo == hi ==> lo == s.len(),
    ensures
        trimmed(s) == s.subrange(lo, hi),
{
    lemma_trim_start(s, lo);
    let t = s.skip(lo);
    lemma_trim_end(t, hi - lo);
    assert(t.take(hi - lo) =~= s.subrange(lo, hi));
}

proof fn lemma_trim_start(s: Seq<char>, lo: int)
    requires
        0 <= lo <= s.len(),
        forall|i: int| 0 <= i < lo ==> is_white(s[i]),
        lo < s.len() ==> !is_white(s[lo]),
    ensures
        trimmed_start(s) == s.skip(lo),
    decreases lo,
{
    if lo == 0 {
        assert(s.skip(0) =~= s);
    } else {
        let t = s.skip(1);
        assert forall|i: int| 0 <= i < lo - 1 implies is_white(t[i]) by {
            assert(t[i] == s[i + 1]);
        }
        lemma_trim_start(t, lo - 1);
        assert(t.skip(lo - 1) =~= s.skip(lo));
    }
}

/// Trailing white space begins behind the last character that is none.
pub proof fn lemma_trim_end(s: Seq<char>, hi: int)
    requires
        0 <= hi <= s.len(),
        forall|i: int| hi <= i < s.len() ==> is_white(s[i]),
        hi > 0 ==> !is_white(s[hi - 1]),
    ensures
        trimmed_end(s) == s.take(hi),
    decreases s.len() - hi,
{
    if hi == s.len() {
        assert(s.take(hi) =~= s);
    } else {
        assert(is_white(s[s.len() - 1]));
        lemma_trim_end(s.drop_last(), hi);
        assert(s.drop_last().take(hi) =~= s.take(hi));
    }
}

/// Removes trailing white space.
pub fn trim_end(s: &str) -> (r: &str)
    ensures
        r@ == trimmed_end(s@),
{
    let chars = chars_of(s);
    let mut hi: usize = chars.len();
    while hi > 0 && white(chars[hi - 1])
        invariant
            chars@ == s@,
            hi <= chars.len(),
            forall|i: int| hi <= i < chars.len() ==> is_white(chars@[i]),
        decreases hi,
    {
        hi -= 1;
    }
    proof {
        lemma_trim_end(s@, hi as int);
    }
    s.substring_char(0, hi)
}

/// Removes surrounding white space.
pub fn trim(s: &str) -> (r: &str)
    ensures
        r@ == trimmed(s@),
{
    let chars = chars_of(s);
    let mut lo: usize = 0;
    while lo < chars.len() && white(chars[lo])
        invariant
            chars@ == s@,
            lo <= chars.len(),
            forall|i: int| 0 <= i < lo ==> is_white(chars@[i]),
        decreases chars.len() - lo,
    {
        lo += 1;
    }
    let mut hi: usize = chars.len();
    while hi > lo && white(chars[hi - 1])
        invariant
            chars@ == s@,
            lo <= hi <= chars.len(),
            lo < chars.len() ==> !is_white(chars@[lo as int]),
            forall|i: int| hi <= i < chars.len() ==> is_white(chars@[i]),
        decreases hi,
    {
        hi -= 1;
    }
    proof {
        if lo == hi && lo < chars.len() {
            assert(is_white(chars@[lo as int]));
        }
        lemma_trim_window(s@, lo as int, hi as int);
    }
    s.substring_char(lo, hi)
}

/// Position of the first `c`, or the length when there is none.
pub fn find(chars: &Vec<char>, c: char) -> (k: usize)
    ensures
        k == first_of(chars@, c),
        k <= chars.len(),
        forall|j: int| 0 <= j < k ==> chars@[j] != c,
        k < chars.len() ==> chars@[k as int] == c,
{
    let mut k: usize = 0;
    while k < chars.len() && chars[k] != c
        invariant
            k <= chars.len(),
            forall|j: int| 0 <= j < k ==> chars@[j] != c,
        decreases chars.len() - k,
    {
        k += 1;
    }
    proof {
        lemma_first_of_is(chars@, c, k as int);
    }
    k
}

/// Splits a text at its first `sep`.
pub fn split_once<'a>(s: &'a str, sep: char) -> (r: Option<(&'a str, &'a str)>)
    ensures
        first_of(s@, sep) >= s@.len() ==> r is None,
        first_of(s@, sep) < s@.len() ==> (r matches Some((head, tail)) && head@ == s@.take(
            first_of(s@, sep) as int,
        ) && tail@ == s@.skip(first_of(s@, sep) as int + 1)),
{
    let chars = chars_of(s);
    let k = find(&chars, sep);
    if k >= chars.len() {
        return None;
    }
    let head = s.substring_char(0, k);
    let tail = s.substring_char(k + 1, chars.len());
    assert(s@.subrange(0, k as int) =~= s@.take(k as int));
    assert(s@.subrange(k + 1, s@.len() as int) =~= s@.skip(k + 1));
    Some((head, tail))
}

/// `line_end` is what its name says.
pub proof fn lemma_line_end(s: Seq<char>)
    ensures
        line_end(s) == s.len() || line_end(s) + 2 <= s.len(),
        line_end(s) + 2 <= s.len() ==> s[line_end(s) as int] == '\r' && s[line_end(s) as int + 1] == '\n',
        forall|j: int|
            0 <= j < line_end(s) && j + 1 < s.len() ==> !(#[trigger] s[j] == '\r' && s[j + 1]
                == '\n'),
    decreases s.len(),
{
    if s.len() >= 2 && !(s[0] == '\r' && s[1] == '\n') {
        let rest = s.skip(1);
        lemma_line_end(rest);
        assert forall|j: int| 0 <= j < line_end(s) && j + 1 < s.len() implies !(#[trigger] s[j]
            == '\r' && s[j + 1] == '\n') by {
            if j > 0 {
                assert(rest[j - 1] == s[j] && rest[j] == s[j + 1]);
            }
        }
    }
}

/// The first line end is the only one with none before it.
pub proof fn lemma_line_end_is(s: Seq<char>, k: int)
    requires
        0 <= k,
        k == s.len() || (k + 2 <= s.len() && s[k] == '\r' && s[k + 1] == '\n'),
        forall|j: int|
            0 <= j < k && j + 1 < s.len() ==> !(#[trigger] s[j] == '\r' && s[j + 1] == '\n'),
    ensures
        line_end(s) == k,
{
    lemma_line_end(s);
    let f = line_end(s) as int;
    if f < k {
        assert(s[f] == '\r');
    }
    if k < f {
        assert(s[k] == '\r');
    }
}

/// A part of a text without a line end holds none either.
pub proof fn lemma_part_holds_no_line_end(s: Seq<char>, from: int, to: int)
    requires
        line_end(s) == s.len(),
        0 <= from <= to <= s.len(),
    ensures
        line_end(s.subrange(from, to)) == to - from,
{
    let p = s.subrange(from, to);
    lemma_line_end(s);
    assert forall|j: int| 0 <= j < p.len() && j + 1 < p.len() implies !(#[trigger] p[j] == '\r'
        && p[j + 1] == '\n') by {
        assert(p[j] == s[from + j] && p[j + 1] == s[from + j + 1]);
    }
    lemma_line_end_is(p, p.len() as int);
}

/// Two texts without a line end make none together unless the second begins with a line feed.
pub proof fn lemma_joined_holds_no_line_end(a: Seq<char>, b: Seq<char>)
    requires
        line_end(a) == a.len(),
        line_end(b) == b.len(),
        b.len() > 0 ==> b[0] != '\n',
    ensures
        line_end(a + b) == a.len() + b.len(),
{
    let s = a + b;
    lemma_line_end(a);
    lemma_line_end(b);
    assert forall|j: int| 0 <= j < s.len() && j + 1 < s.len() implies !(#[trigger] s[j] == '\r'
        && s[j + 1] == '\n') by {
        if j + 1 < a.len() {
            assert(s[j] == a[j] && s[j + 1] == a[j + 1]);
        } else if j >= a.len() {
            assert(s[j] == b[j - a.len()] && s[j + 1] == b[j - a.len() + 1]);
        } else {
            assert(s[j + 1] == b[0]);
        }
    }
    lemma_line_end_is(s, s.len() as int);
}

/// The pieces of a text without a line end hold none either.
pub proof fn lemma_fields_hold_no_line_end(s: Seq<char>, sep: char, i: int)
    requires
        line_end(s) == s.len(),
        0 <= i < fields(s, sep).len(),
    ensures
        line_end(fields(s, sep)[i]) == fields(s, sep)[i].len(),
    decreases s.len(),
{
    lemma_first_of(s, sep);
    let k = first_of(s, sep) as int;
    if k < s.len() {
        assert(s.take(k) =~= s.subrange(0, k));
        assert(s.skip(k + 1) =~= s.subrange(k + 1, s.len() as int));
        if i == 0 {
            lemma_part_holds_no_line_end(s, 0, k);
        } else {
            lemma_part_holds_no_line_end(s, k + 1, s.len() as int);
            lemma_fields_hold_no_line_end(s.skip(k + 1), sep, i - 1);
        }
    }
}

/// A text without a line end is the first line of what begins with it and a line end.
pub proof fn lemma_lines_prepend(p: Seq<char>, rest: Seq<char>)
    requires
        line_end(p) == p.len(),
    ensures
        lines(p + "\r\n"@ + rest) == seq![p] + lines(rest),
{
    reveal_strlit("\r\n");
    let s = p + "\r\n"@ + rest;
    lemma_line_end(p);
    assert forall|j: int| 0 <= j < p.len() && j + 1 < s.len() implies !(#[trigger] s[j] == '\r'
        && s[j + 1] == '\n') by {
        assert(s[j] == p[j]);
        if j + 1 < p.len() {
            assert(s[j + 1] == p[j + 1]);
        }
    }
    assert(s[p.len() as int] == '\r' && s[p.len() as int + 1] == '\n');
    lemma_line_end_is(s, p.len() as int);
    assert(s.take(p.len() as int) =~= p);
    assert(s.skip(p.len() as int + 2) =~= rest);
}

/// No piece between line ends holds one itself.
pub proof fn lemma_lines_hold_no_line_end(s: Seq<char>, i: int)
    requires
        0 <= i < lines(s).len(),
    ensures
        line_end(lines(s)[i]) == lines(s)[i].len(),
    decreases s.len(),
{
    lemma_line_end(s);
    let k = line_end(s) as int;
    if k + 2 <= s.len() {
        if i == 0 {
            let p = s.take(k);
            assert forall|j: int| 0 <= j < p.len() && j + 1 < p.len() implies !(#[trigger] p[j]
                == '\r' && p[j + 1] == '\n') by {
                assert(p[j] == s[j] && p[j + 1] == s[j + 1]);
            }
            lemma_line_end_is(p, k);
        } else {
            lemma_lines_hold_no_line_end(s.skip(k + 2), i - 1);
        }
    }
}

/// Splits a text at its first line end.
pub fn split_line<'a>(s: &'a str) -> (r: Option<(&'a str, &'a str)>)
    ensures
        line_end(s@) + 2 > s@.len() ==> r is None,
        line_end(s@) + 2 <= s@.len() ==> (r matches Some((head, tail)) && head@ == s@.take(
            line_end(s@) as int,
        ) && tail@ == s@.skip(line_end(s@) as int + 2)),
{
    let chars = chars_of(s);
    let n = chars.len();
    let mut k: usize = 0;
    while n - k >= 2 && !(chars[k] == '\r' && chars[k + 1] == '\n')
        invariant
            chars@ == s@,
            n == chars.len(),
            k <= n,
            forall|j: int|
                0 <= j < k && j + 1 < s@.len() ==> !(#[trigger] s@[j] == '\r' && s@[j + 1] == '\n'),
        decreases n - k,
    {
        k += 1;
    }
    if n - k < 2 {
        proof {
            lemma_line_end_is(s@, n as int);
        }
        return None;
    }
    proof {
        lemma_line_end_is(s@, k as int);
    }
    let head = s.substring_char(0, k);
    let tail = s.substring_char(k + 2, n);
    assert(head@ =~= s@.take(k as int));
    assert(tail@ =~= s@.skip(k + 2));
    Some((head, tail))
}

/// Splits a text at every line end.
pub fn split_lines<'a>(s: &'a str) -> (r: Vec<&'a str>)
    ensures
        views(r@) == lines(s@),
{
    let mut r: Vec<&'a str> = Vec::new();
    let mut rest: &'a str = s;
    loop
        invariant
            views(r@) + lines(rest@) == lines(s@),
        decreases rest@.len(),
    {
        let ghost before = views(r@);
        match split_line(rest) {
            Some((head, tail)) => {
                r.push(head);
                assert(views(r@) =~= before + seq![head@]);
                assert(before + lines(rest@) =~= views(r@) + lines(tail@));
                rest = tail;
            },
            None => {
                r.push(rest);
                assert(views(r@) =~= before + seq![rest@]);
                return r;
            },
        }
    }
}

/// `last_of` is what its name says.
pub proof fn lemma_last_of(s: Seq<char>, c: char)
    ensures
        -1 <= last_of(s, c) < s.len(),
        forall|j: int| last_of(s, c) < j < s.len() ==> s[j] != c,
        last_of(s, c) >= 0 ==> s[last_of(s, c)] == c,
    decreases s.len(),
{
    if s.len() > 0 && s.last() != c {
        lemma_last_of(s.drop_last(), c);
        assert forall|j: int| last_of(s, c) < j < s.len() implies s[j] != c by {
            if j < s.len() - 1 {
                assert(s.drop_last()[j] == s[j]);
            }
        }
    }
}

/// The last position is the only one with nothing behind it.
pub proof fn lemma_last_of_is(s: Seq<char>, c: char, k: int)
    requires
        -1 <= k < s.len(),
        forall|j: int| k < j < s.len() ==> s[j] != c,
        k >= 0 ==> s[k] == c,
    ensures
        last_of(s, c) == k,
    decreases s.len(),
{
    if s.len() > 0 && s.last() != c {
        lemma_last_of_is(s.drop_last(), c, k);
    }
}

/// Splits a text at its last `sep`.
pub fn rsplit_once<'a>(s: &'a str, sep: char) -> (r: Option<(&'a str, &'a str)>)
    ensures
        last_of(s@, sep) < 0 ==> r is None,
        last_of(s@, sep) >= 0 ==> (r matches Some((head, tail)) && head@ == s@.take(
            last_of(s@, sep),
        ) && tail@ == s@.skip(last_of(s@, sep) + 1)),
{
    let chars = chars_of(s);
    let n = chars.len();
    let mut k: usize = n;
    while k > 0 && chars[k - 1] != sep
        invariant
            chars@ == s@,
            n == chars.len(),
            k <= n,
            forall|j: int| k <= j < n ==> s@[j] != sep,
        decreases k,
    {
        k -= 1;
    }
    proof {
        lemma_last_of_is(s@, sep, k - 1);
    }
    if k == 0 {
        return None;
    }
    let head = s.substring_char(0, k - 1);
    let tail = s.substring_char(k, n);
    assert(head@ =~= s@.take(k - 1));
    assert(tail@ =~= s@.skip(k as int));
    Some((head, tail))
}

/// Whether two texts are the same but for the case of ASCII letters.
pub fn same_ignoring_case(a: &str, b: &str) -> (r: bool)
    ensures
        r == (ascii_lowered(a@) == ascii_lowered(b@)),
{
    let x = chars_of(a);
    let y = chars_of(b);
    if x.len() != y.len() {
        assert(ascii_lowered(a@).len() != ascii_lowered(b@).len());
        return false;
    }
    let mut i: usize = 0;
    while i < x.len()
        invariant
            x@ == a@,
            y@ == b@,
            x.len() == y.len(),
            i <= x.len(),
            forall|j: int| 0 <= j < i ==> ascii_lower(x@[j]) == ascii_lower(y@[j]),
        decreases x.len() - i,
    {
        if lower(x[i]) != lower(y[i]) {
            assert(ascii_lowered(a@)[i as int] != ascii_lowered(b@)[i as int]);
            return false;
        }
        i += 1;
    }
    assert(ascii_lowered(a@) =~= ascii_lowered(b@));
    true
}

/// Returns an ASCII letter in lower case, any other character as it is.
pub fn lower(c: char) -> (r: char)
    ensures
        r == ascii_lower(c),
{
    if 'A' <= c && c <= 'Z' {
        (c as u8 + 32) as char
    } else {
        c
    }
}

/// Calls `std::str::from_utf8`: succeeds on valid UTF-8 alone and gives the characters it encodes.
#[verifier::external_body]
pub(crate) fn utf8(bytes: &[u8]) -> (r: Option<&str>)
    ensures
        r is Some <==> valid_utf8(bytes@),
        r matches Some(s) ==> s@ == decode_utf8(bytes@),
{
    std::str::from_utf8(bytes).ok()
}

/// The views of a list of texts.
pub open spec fn views(v: Seq<&str>) -> Seq<Seq<char>> {
    Seq::new(v.len(), |i: int| v[i]@)
}

/// Splits a text at every `sep`.
pub fn split<'a>(s: &'a str, sep: char) -> (r: Vec<&'a str>)
    ensures
        views(r@) == fields(s@, sep),
        r.len() > 0,
{
    let mut r: Vec<&'a str> = Vec::new();
    let mut rest: &'a str = s;
    loop
        invariant
            views(r@) + fields(rest@, sep) == fields(s@, sep),
        decreases rest@.len(),
    {
        proof {
            lemma_first_of(rest@, sep);
        }
        let ghost before = views(r@);
        match split_once(rest, sep) {
            Some((head, tail)) => {
                r.push(head);
                assert(views(r@) =~= before + seq![head@]);
                assert(before + fields(rest@, sep) =~= views(r@) + fields(tail@, sep));
                rest = tail;
            },
            None => {
                r.push(rest);
                assert(views(r@) =~= before + seq![rest@]);
                return r;
            },
        }
    }
}

/// Whether `p` stands in `s` at position `i`.
pub fn stands_at(s: &Vec<char>, p: &Vec<char>, i: usize) -> (r: bool)
    ensures
        r == occurs_at(s@, p@, i as int),
{
    if i > s.len() || p.len() > s.len() - i {
        return false;
    }
    let mut j: usize = 0;
    while j < p.len()
        invariant
            j <= p.len(),
            i + p.len() <= s.len(),
            forall|k: int| 0 <= k < j ==> s@[i + k] == p@[k],
        decreases p.len() - j,
    {
        if s[i + j] != p[j] {
            assert(s@.subrange(i as int, i + p.len())[j as int] != p@[j as int]);
            return false;
        }
        j += 1;
    }
    assert(s@.subrange(i as int, i + p.len()) =~= p@);
    true
}

/// Whether `p` stands anywhere in `s`.
pub fn contains(s: &str, p: &str) -> (r: bool)
    ensures
        r == occurs(s@, p@),
{
    let chars = chars_of(s);
    let part = chars_of(p);
    let mut i: usize = 0;
    while i < chars.len()
        invariant
            chars@ == s@,
            part@ == p@,
            i <= chars.len(),
            forall|k: int| 0 <= k < i ==> !#[trigger] occurs_at(s@, p@, k),
        decreases chars.len() - i,
    {
        if stands_at(&chars, &part, i) {
            assert(occurs_at(s@, p@, i as int));
            return true;
        }
        i += 1;
    }
    let last = stands_at(&chars, &part, i);
    assert(last == occurs_at(s@, p@, i as int));
    last
}

/// Whether `c` stands anywhere in `s`.
pub fn contains_char(s: &str, c: char) -> (r: bool)
    ensures
        r == s@.contains(c),
        r == (first_of(s@, c) < s@.len()),
{
    let chars = chars_of(s);
    let k = find(&chars, c);
    if k < chars.len() {
        assert(s@[k as int] == c);
    }
    k < chars.len()
}

/// Whether any character is white space.
pub fn contains_white(s: &str) -> (r: bool)
    ensures
        r == exists|i: int| 0 <= i < s@.len() && is_white(#[trigger] s@[i]),
{
    let chars = chars_of(s);
    let mut i: usize = 0;
    while i < chars.len()
        invariant
            chars@ == s@,
            i <= chars.len(),
            forall|j: int| 0 <= j < i ==> !is_white(#[trigger] s@[j]),
        decreases chars.len() - i,
    {
        if white(chars[i]) {
            assert(is_white(s@[i as int]));
            return true;
        }
        i += 1;
    }
    false
}

/// Removes one trailing `c`, where the text ends in one.
pub fn strip_last(s: &str, c: char) -> (r: &str)
    ensures
        r@ == without_last(s@, c),
{
    let chars = chars_of(s);
    let n = chars.len();
    if n > 0 && chars[n - 1] == c {
        let r = s.substring_char(0, n - 1);
        assert(r@ =~= s@.drop_last());
        return r;
    }
    s
}

/// Removes one leading `c`, where the text begins with one.
pub fn strip_first(s: &str, c: char) -> (r: &str)
    ensures
        r@ == without_first(s@, c),
{
    let n = s.unicode_len();
    if n > 0 && s.get_char(0) == c {
        let r = s.substring_char(1, n);
        assert(r@ =~= s@.skip(1));
        return r;
    }
    s
}

/// The contents of a list of owned texts.
pub open spec fn contents(v: Seq<String>) -> Seq<Seq<char>> {
    Seq::new(v.len(), |i: int| v[i]@)
}

/// Joins texts with a separator between them.
pub fn join(parts: &Vec<String>, sep: &str) -> (r: String)
    ensures
        r@ == joined(contents(parts@), sep@),
{
    let mut r = String::new();
    let mut i: usize = 0;
    let ghost all = contents(parts@);
    assert(all.take(0) =~= Seq::<Seq<char>>::empty());
    while i < parts.len()
        invariant
            all == contents(parts@),
            i <= parts.len(),
            r@ == joined(all.take(i as int), sep@),
        decreases parts.len() - i,
    {
        let ghost longer = all.take(i + 1);
        assert(longer.drop_last() =~= all.take(i as int));
        assert(longer.last() == parts@[i as int]@);
        if i == 0 {
            r = parts[i].clone();
        } else {
            r.append(sep);
            r.append(parts[i].as_str());
        }
        i += 1;
    }
    assert(all.take(i as int) =~= all);
    r
}

/// Removes the prefix `p`, where the text begins with it.
pub fn strip_prefix<'a>(s: &'a str, p: &str) -> (r: Option<&'a str>)
    ensures
        r is Some == begins(s@, p@),
        r is Some ==> r->0@ == s@.skip(p@.len() as int),
{
    let chars = chars_of(s);
    let prefix = chars_of(p);
    if !stands_at(&chars, &prefix, 0) {
        return None;
    }
    let r = s.substring_char(prefix.len(), chars.len());
    assert(r@ =~= s@.skip(p@.len() as int));
    Some(r)
}

/// Removes the suffix `p`, where the text ends in it.
pub fn strip_suffix<'a>(s: &'a str, p: &str) -> (r: Option<&'a str>)
    ensures
        r is Some == ends(s@, p@),
        r is Some ==> r->0@ == s@.take(s@.len() - p@.len()),
{
    let chars = chars_of(s);
    let suffix = chars_of(p);
    if suffix.len() > chars.len() || !stands_at(&chars, &suffix, chars.len() - suffix.len()) {
        return None;
    }
    let r = s.substring_char(0, chars.len() - suffix.len());
    assert(r@ =~= s@.take(s@.len() - p@.len()));
    Some(r)
}

/// Reads a non-empty run of digits of at most `max`.
pub fn read_plain_number(s: &str, max: u64) -> (r: Option<u64>)
    ensures
        match r {
            Some(n) => plain_number(s@, max as nat) == Some(n as nat),
            None => plain_number(s@, max as nat) is None,
        },
{
    let chars = chars_of(s);
    if chars.len() == 0 {
        return None;
    }
    let mut value: u64 = 0;
    let mut over: bool = false;
    let mut i: usize = 0;
    while i < chars.len()
        invariant
            chars@ == s@,
            i <= chars.len(),
            all_digits(s@.take(i as int)),
            !over ==> value == digits_value(s@.take(i as int)) && value <= max,
            over ==> digits_value(s@.take(i as int)) > max,
        decreases chars.len() - i,
    {
        let c = chars[i];
        let ghost shorter = s@.take(i as int);
        let ghost longer = s@.take(i + 1);
        assert(longer.drop_last() =~= shorter);
        assert(longer.last() == c);
        if c < '0' || c > '9' {
            assert(!is_digit(s@[i as int]));
            return None;
        }
        let d: u64 = (c as u32 - '0' as u32) as u64;
        assert(d == digit_of(c));
        assert(all_digits(longer)) by {
            assert forall|j: int| 0 <= j < longer.len() implies is_digit(#[trigger] longer[j]) by {
                if j < i {
                    assert(longer[j] == shorter[j]);
                }
            }
        }
        if !over {
            if d > max || value > max / 10 || value * 10 > max - d {
                over = true;
                assert(value * 10 + d > max) by (nonlinear_arith)
                    requires
                        d > max || value > max / 10 || value * 10 > max - d,
                ;
            } else {
                value = value * 10 + d;
            }
        } else {
            assert(digits_value(longer) > max);
        }
        i += 1;
    }
    assert(s@.take(i as int) =~= s@);
    if over {
        return None;
    }
    Some(value)
}

/// Reads an unsigned number of at most `max`, which may carry a leading plus sign.
pub fn read_number(s: &str, max: u64) -> (r: Option<u64>)
    ensures
        match r {
            Some(n) => number(s@, max as nat) == Some(n as nat),
            None => number(s@, max as nat) is None,
        },
{
    proof {
        reveal_strlit("+");
    }
    match strip_prefix(s, "+") {
        Some(rest) => {
            assert(s@.subrange(0, 1)[0] == '+');
            read_plain_number(rest, max)
        },
        None => {
            proof {
                if s@.len() > 0 && s@[0] == '+' {
                    assert(s@.subrange(0, 1) =~= "+"@);
                }
            }
            read_plain_number(s, max)
        },
    }
}

fn digit_text(d: u64) -> (r: &'static str)
    requires
        d < 10,
    ensures
        r@ == seq![digit_char(d as nat)],
{
    proof {
        reveal_strlit("0");
        reveal_strlit("1");
        reveal_strlit("2");
        reveal_strlit("3");
        reveal_strlit("4");
        reveal_strlit("5");
        reveal_strlit("6");
        reveal_strlit("7");
        reveal_strlit("8");
        reveal_strlit("9");
    }
    match d {
        0 => "0",
        1 => "1",
        2 => "2",
        3 => "3",
        4 => "4",
        5 => "5",
        6 => "6",
        7 => "7",
        8 => "8",
        _ => "9",
    }
}

/// Writes a number in decimal.
pub fn decimal_text(n: u64) -> (r: String)
    ensures
        r@ == decimal(n as nat),
    decreases n,
{
    if n < 10 {
        return digit_text(n).to_owned();
    }
    let mut r = decimal_text(n / 10);
    r.append(digit_text(n % 10));
    assert(r@ =~= decimal(n as nat));
    r
}

/// White space round a text is taken off and nothing else: what is left begins and ends where the
/// text did.
pub proof fn law_trimming_keeps_the_text(before: Seq<char>, s: Seq<char>, after: Seq<char>)
    requires
        forall|i: int| 0 <= i < before.len() ==> is_white(#[trigger] before[i]),
        forall|i: int| 0 <= i < after.len() ==> is_white(#[trigger] after[i]),
        s.len() > 0 ==> !is_white(s[0]) && !is_white(s.last()),
    ensures
        trimmed(before + s + after) == s,
        trimmed_end(s + after) == s,
{
    let all = before + s + after;
    if s.len() > 0 {
        lemma_trim_window(all, before.len() as int, (before.len() + s.len()) as int);
        assert(all.subrange(before.len() as int, (before.len() + s.len()) as int) =~= s);
    } else {
        lemma_trim_start(all, all.len() as int);
        assert(all.skip(all.len() as int) =~= s);
    }
    lemma_trim_end(s + after, s.len() as int);
    assert((s + after).take(s.len() as int) =~= s);
}

/// White space is a tab, a line feed, a vertical tab, a form feed, a carriage return, a space and
/// what Unicode counts to them outside ASCII; letters, digits and punctuation are none.
pub proof fn law_what_white_space_is(c: char)
    ensures
        c < '\u{80}' ==> (is_white(c) <==> c == '\t' || c == '\n' || c == '\u{b}' || c == '\u{c}' || c
            == '\r' || c == ' '),
        c >= '\u{80}' ==> (is_white(c) <==> c == '\u{85}' || c == '\u{a0}' || c == '\u{1680}' || (
        '\u{2000}' <= c && c <= '\u{200a}') || c == '\u{2028}' || c == '\u{2029}' || c == '\u{202f}' || c
            == '\u{205f}' || c == '\u{3000}'),
{
}

/// Splitting loses nothing: no piece holds the separator, and the pieces with the separator between
/// them are the text again.
pub proof fn law_fields_make_up_the_text(s: Seq<char>, sep: char)
    ensures
        joined(fields(s, sep), seq![sep]) == s,
        forall|i: int, j: int|
            0 <= i < fields(s, sep).len() && 0 <= j < fields(s, sep)[i].len() ==> #[trigger] fields(
                s,
                sep,
            )[i][j] != sep,
    decreases s.len(),
{
    lemma_first_of(s, sep);
    let k = first_of(s, sep) as int;
    if k < s.len() {
        let rest = s.skip(k + 1);
        law_fields_make_up_the_text(rest, sep);
        lemma_joined_prepend(s.take(k), fields(rest, sep), seq![sep]);
        assert(s.take(k) + seq![sep] + rest =~= s);
        assert forall|i: int, j: int|
            0 <= i < fields(s, sep).len() && 0 <= j < fields(s, sep)[i].len() implies #[trigger] fields(
            s,
            sep,
        )[i][j] != sep by {
            if i > 0 {
                assert(fields(s, sep)[i] == fields(rest, sep)[i - 1]);
                assert(fields(rest, sep)[i - 1][j] != sep);
            }
        }
    }
}

proof fn lemma_joined_prepend(first: Seq<char>, parts: Seq<Seq<char>>, sep: Seq<char>)
    requires
        parts.len() > 0,
    ensures
        joined(seq![first] + parts, sep) == first + sep + joined(parts, sep),
    decreases parts.len(),
{
    let all = seq![first] + parts;
    assert(all.last() == parts.last());
    if parts.len() == 1 {
        assert(all.drop_last() =~= seq![first]);
        assert(joined(all.drop_last(), sep) == first);
    } else {
        lemma_joined_prepend(first, parts.drop_last(), sep);
        assert(all.drop_last() =~= seq![first] + parts.drop_last());
        assert((first + sep + joined(parts.drop_last(), sep)) + sep + parts.last() =~= first + sep + (
        joined(parts.drop_last(), sep) + sep + parts.last()));
    }
}

/// Reading lines loses nothing: no line holds a line end, and the lines with a carriage return and a
/// line feed between them are the text again.
pub proof fn law_lines_make_up_the_text(s: Seq<char>)
    ensures
        joined(lines(s), seq!['\r', '\n']) == s,
        forall|i: int, j: int|
            0 <= i < lines(s).len() && 0 <= j < lines(s)[i].len() - 1 && #[trigger] lines(s)[i][j]
                == '\r' ==> lines(s)[i][j + 1] != '\n',
    decreases s.len(),
{
    lemma_line_end(s);
    let k = line_end(s) as int;
    let end = seq!['\r', '\n'];
    if k + 2 <= s.len() {
        let rest = s.skip(k + 2);
        law_lines_make_up_the_text(rest);
        lemma_joined_prepend(s.take(k), lines(rest), end);
        assert(s.take(k) + end + rest =~= s);
    }
    assert forall|i: int, j: int|
        0 <= i < lines(s).len() && 0 <= j < lines(s)[i].len() - 1 && #[trigger] lines(s)[i][j]
            == '\r' implies lines(s)[i][j + 1] != '\n' by {
        lemma_lines_hold_no_line_end(s, i);
        lemma_line_end(lines(s)[i]);
    }
}

/// A number is written in decimal: a digit is itself, and one more digit behind a number is ten times
/// the number and the digit.
pub proof fn law_decimal_is_written_digit_by_digit(n: nat, d: nat)
    requires
        d < 10,
    ensures
        decimal(d) == seq![('0' as int + d) as char],
        n > 0 ==> decimal(n * 10 + d) == decimal(n).push(('0' as int + d) as char),
        digits_value(seq![('0' as int + d) as char]) == d,
        forall|s: Seq<char>|
            #[trigger] digits_value(s.push(('0' as int + d) as char)) == digits_value(s) * 10 + d,
{
    let c = ('0' as int + d) as char;
    assert(c as int == '0' as int + d);
    assert((n * 10 + d) / 10 == n && (n * 10 + d) % 10 == d);
    assert(seq![c].drop_last() =~= Seq::<char>::empty());
    reveal_with_fuel(digits_value, 2);
    assert forall|s: Seq<char>| #[trigger] digits_value(s.push(c)) == digits_value(s) * 10 + d by {
        assert(s.push(c).drop_last() =~= s);
    }
}

/// A number is read from digits alone, a plus sign before them is passed over, leading zeros count
/// for nothing, and one past the bound is none.
pub proof fn law_what_a_number_is(s: Seq<char>, max: nat)
    ensures
        number(s, max) matches Some(n) ==> n <= max && s.len() > 0,
        number(s, max) is Some ==> forall|i: int|
            0 <= i < s.len() ==> '0' <= #[trigger] s[i] && s[i] <= '9' || (i == 0 && s[i] == '+'),
        s.len() > 0 && (forall|i: int| 0 <= i < s.len() ==> '0' <= #[trigger] s[i] && s[i] <= '9')
            ==> number(s, max) == if digits_value(s) <= max {
            Some(digits_value(s))
        } else {
            None
        },
        s.len() > 0 && s[0] != '+' ==> number(seq!['+'] + s, max) == number(s, max),
        s.len() > 0 && s[0] != '+' ==> number(seq!['0'] + s, max) == number(s, max),
        number(Seq::empty(), max) is None,
{
    assert((seq!['+'] + s).skip(1) =~= s);
    if s.len() > 0 && s[0] == '+' && number(s, max) is Some {
        assert forall|i: int| 0 <= i < s.len() implies '0' <= #[trigger] s[i] && s[i] <= '9' || (i
            == 0 && s[i] == '+') by {
            if i > 0 {
                assert(is_digit(s.skip(1)[i - 1]));
            }
        }
    } else if number(s, max) is Some {
        assert forall|i: int| 0 <= i < s.len() implies '0' <= #[trigger] s[i] && s[i] <= '9' || (i
            == 0 && s[i] == '+') by {
            assert(is_digit(s[i]));
        }
    }
    if s.len() > 0 && s[0] != '+' {
        let padded = seq!['0'] + s;
        lemma_leading_zero(s);
        if all_digits(s) {
            assert forall|i: int| 0 <= i < padded.len() implies is_digit(#[trigger] padded[i]) by {
                if i > 0 {
                    assert(is_digit(s[i - 1]));
                }
            }
        } else {
            let i = choose|i: int| 0 <= i < s.len() && !is_digit(#[trigger] s[i]);
            assert(padded[i + 1] == s[i]);
        }
    }
}

proof fn lemma_leading_zero(s: Seq<char>)
    ensures
        digits_value(seq!['0'] + s) == digits_value(s),
    decreases s.len(),
{
    let padded = seq!['0'] + s;
    if s.len() == 0 {
        assert(padded.drop_last() =~= Seq::<char>::empty());
        reveal_with_fuel(digits_value, 2);
    } else {
        lemma_leading_zero(s.drop_last());
        assert(padded.drop_last() =~= seq!['0'] + s.drop_last());
    }
}

/// Lower case turns A to Z into a to z and leaves every other ASCII character, and the length, alone.
pub proof fn law_lower_case_of_ascii(s: Seq<char>, i: int)
    requires
        0 <= i < s.len(),
        is_ascii_chars(s),
    ensures
        lower_case(s) == ascii_lowered(s),
        lower_case(s).len() == s.len(),
        'A' <= s[i] && s[i] <= 'Z' ==> lower_case(s)[i] as int - 'a' as int == s[i] as int
            - 'A' as int,
        !('A' <= s[i] && s[i] <= 'Z') ==> lower_case(s)[i] == s[i],
        ascii_lowered(s)[i] == lower_case(s)[i],
{
}

/// A text begins with what it was put together from at the front, ends with what stands at its end,
/// and both say that the text can be taken apart there.
pub proof fn law_beginnings_and_endings(a: Seq<char>, b: Seq<char>)
    ensures
        begins(a + b, a),
        ends(a + b, b),
        begins(a, b) ==> a == b + a.skip(b.len() as int),
        ends(a, b) ==> a == a.take(a.len() - b.len()) + b,
{
    assert((a + b).subrange(0, a.len() as int) =~= a);
    assert((a + b).subrange((a + b).len() - b.len(), (a + b).len() as int) =~= b);
    if begins(a, b) {
        assert(a =~= b + a.skip(b.len() as int)) by {
            assert(a.subrange(0, b.len() as int) == b);
            assert forall|i: int| 0 <= i < b.len() implies a[i] == b[i] by {
                assert(a.subrange(0, b.len() as int)[i] == a[i]);
            }
        }
    }
    if ends(a, b) {
        let k = a.len() - b.len();
        assert(a.subrange(k, k + b.len()) == b);
        assert forall|i: int| k <= i < a.len() implies a[i] == b[i - k] by {
            assert(a.subrange(k, k + b.len())[i - k] == a[i]);
        }
        assert(a =~= a.take(k) + b);
    }
}

/// A text occurs in another exactly where the other can be written with it in the middle.
pub proof fn law_occurring_is_being_a_part(a: Seq<char>, p: Seq<char>, b: Seq<char>, s: Seq<char>)
    ensures
        occurs(a + p + b, p),
        occurs(s, p) ==> exists|x: Seq<char>, y: Seq<char>| s == #[trigger] (x + p + y),
{
    let all = a + p + b;
    assert(all.subrange(a.len() as int, (a.len() + p.len()) as int) =~= p);
    assert(occurs_at(all, p, a.len() as int));
    if occurs(s, p) {
        let i = choose|i: int| #[trigger] occurs_at(s, p, i);
        let x = s.take(i);
        let y = s.skip(i + p.len());
        assert forall|j: int| i <= j < i + p.len() implies s[j] == p[j - i] by {
            assert(s.subrange(i, i + p.len())[j - i] == s[j]);
        }
        assert(s =~= (x + p) + y);
    }
}

/// Views keep the texts and their order, and joining puts the separator between each two.
pub proof fn law_views_and_joins(
    strings: Seq<String>,
    slices: Seq<&str>,
    parts: Seq<Seq<char>>,
    last: Seq<char>,
    sep: Seq<char>,
)
    ensures
        contents(strings).len() == strings.len(),
        forall|i: int| 0 <= i < strings.len() ==> #[trigger] contents(strings)[i] == strings[i]@,
        views(slices).len() == slices.len(),
        forall|i: int| 0 <= i < slices.len() ==> #[trigger] views(slices)[i] == slices[i]@,
        joined(Seq::empty(), sep).len() == 0,
        joined(seq![last], sep) == last,
        parts.len() > 0 ==> joined(parts.push(last), sep) == joined(parts, sep) + sep + last,
{
    assert(parts.push(last).drop_last() =~= parts);
}

/// One character is taken off an end where it stands there, and only one.
pub proof fn law_one_character_is_taken_off(s: Seq<char>, c: char)
    ensures
        without_last(s.push(c), c) == s,
        without_first(seq![c] + s, c) == s,
        s.len() == 0 || s.last() != c ==> without_last(s, c) == s,
        s.len() == 0 || s[0] != c ==> without_first(s, c) == s,
{
    assert(s.push(c).drop_last() =~= s);
    assert((seq![c] + s).skip(1) =~= s);
}

/// A plain text in quotes is the text between two double quotes.
pub proof fn law_a_plain_text_in_quotes(s: Seq<char>)
    requires
        forall|i: int|
            0 <= i < s.len() ==> ' ' <= #[trigger] s[i] && s[i] <= '~' && s[i] != '"' && s[i] != '\''
                && s[i] != '\\',
    ensures
        in_quotes(s) == "\""@ + s + "\""@,
{
}

/// There is always a piece, if only an empty one.
pub proof fn lemma_fields_are_some(s: Seq<char>, sep: char)
    ensures
        fields(s, sep).len() > 0,
{
}

} // verus!
