//! Text primitives of the standard library used by the input readers and
//! writers: splitting into lines and words, reading and writing unsigned
//! decimal numbers, comparing and lower-casing strings.

use vstd::prelude::*;

verus! {

/// The number of characters of `s` before its first `\n` (all of them
/// when it has none).
pub open spec fn line_len(s: Seq<char>) -> nat
    decreases s.len(),
{
    if s.len() == 0 || s[0] == '\n' {
        0
    } else {
        1 + line_len(s.drop_first())
    }
}

/// A line's text without the `\r` of a `\r\n` line ending.
pub open spec fn strip_cr(line: Seq<char>) -> Seq<char> {
    if line.len() > 0 && line.last() == '\r' { line.drop_last() } else { line }
}

/// The lines of `s` as `str::lines` yields them: `s` is cut at each `\n`,
/// which is dropped with a `\r` just before it; a final `\n` ends the
/// last line and starts no other.
pub open spec fn lines_of(s: Seq<char>) -> Seq<Seq<char>>
    decreases s.len(),
{
    if s.len() == 0 {
        Seq::empty()
    } else if line_len(s) >= s.len() {
        seq![s]
    } else {
        seq![strip_cr(s.take(line_len(s) as int))] + lines_of(s.skip(line_len(s) as int + 1))
    }
}

/// Whether `c` has the Unicode White_Space property, which
/// `char::is_whitespace` tests: U+0009 to U+000D, U+0020, U+0085, U+00A0,
/// U+1680, U+2000 to U+200A, U+2028, U+2029, U+202F, U+205F and U+3000.
pub open spec fn is_white_space(c: char) -> bool {
    let n = c as u32;
    ||| 9 <= n && n <= 13
    ||| n == 32
    ||| n == 0x85
    ||| n == 0xa0
    ||| n == 0x1680
    ||| 0x2000 <= n && n <= 0x200a
    ||| n == 0x2028
    ||| n == 0x2029
    ||| n == 0x202f
    ||| n == 0x205f
    ||| n == 0x3000
}

/// The number of characters of `s` before its first whitespace (all of
/// them when it has none).
pub open spec fn word_len(s: Seq<char>) -> nat
    decreases s.len(),
{
    if s.len() == 0 || is_white_space(s[0]) {
        0
    } else {
        1 + word_len(s.drop_first())
    }
}

/// The words of `s` as `str::split_whitespace` yields them: the maximal
/// runs of characters that are not whitespace, in order.
pub open spec fn words_of(s: Seq<char>) -> Seq<Seq<char>>
    decreases s.len(),
{
    if s.len() == 0 {
        Seq::empty()
    } else if is_white_space(s[0]) {
        words_of(s.drop_first())
    } else if word_len(s) >= s.len() {
        seq![s]
    } else {
        seq![s.take(word_len(s) as int)] + words_of(s.skip(word_len(s) as int))
    }
}

/// `s` lower-cased as `str::to_lowercase` does it.
pub uninterp spec fn lowercase(s: Seq<char>) -> Seq<char>;

/// Whether `c` is one of the ASCII digits `0`-`9`.
pub open spec fn is_ascii_digit(c: char) -> bool {
    48 <= (c as u32) && (c as u32) <= 57
}

/// The value of a string of ASCII digits, read in base 10.
pub open spec fn digits_value(s: Seq<char>) -> nat
    decreases s.len(),
{
    if s.len() == 0 {
        0
    } else {
        digits_value(s.drop_last()) * 10 + ((s.last() as u32) - 48) as nat
    }
}

/// What `u64::from_str` accepts: an optional `+` followed by one or more
/// ASCII digits whose value fits in 64 bits.
pub open spec fn parse_index_spec(s: Seq<char>) -> Option<u64> {
    let d = if s.len() > 0 && s[0] == '+' { s.drop_first() } else { s };
    if d.len() > 0 && (forall|i: int| 0 <= i < d.len() ==> is_ascii_digit(#[trigger] d[i]))
        && digits_value(d) <= u64::MAX {
        Some(digits_value(d) as u64)
    } else {
        None
    }
}

/// The ASCII digit for `d` (below 10).
pub open spec fn digit_char(d: nat) -> char {
    (48 + d) as char
}

/// The base-10 representation of `n`, without leading zeros.
pub open spec fn decimal(n: nat) -> Seq<char>
    decreases n,
{
    if n < 10 {
        seq![digit_char(n)]
    } else {
        decimal(n / 10).push(digit_char(n % 10))
    }
}

/// The base-10 representation of `n` is a nonempty run of ASCII digits
/// whose value is `n`.
pub(crate) proof fn lemma_decimal_digits(n: nat)
    ensures
        decimal(n).len() > 0,
        forall|i: int| 0 <= i < decimal(n).len() ==> is_ascii_digit(#[trigger] decimal(n)[i]),
        digits_value(decimal(n)) == n,
        decimal(n)[0] != '+',
    decreases n,
{
    assert((digit_char(n % 10) as u32) == 48 + n % 10);
    if n >= 10 {
        lemma_decimal_digits(n / 10);
        let d = decimal(n);
        assert(d.drop_last() =~= decimal(n / 10));
        assert(d[0] == decimal(n / 10)[0]);
        assert(d.last() == digit_char(n % 10));
        assert(n == (n / 10) * 10 + n % 10) by (nonlinear_arith);
        assert(((d.last() as u32) - 48) as nat == n % 10);
        assert(digits_value(d) == digits_value(d.drop_last()) * 10 + ((d.last() as u32) - 48) as nat);
        assert(digits_value(d.drop_last()) == n / 10);
    } else {
        let d = decimal(n);
        assert(d.drop_last() =~= Seq::<char>::empty());
        assert(d.last() == digit_char(n % 10));
        assert(n % 10 == n);
        assert(digits_value(d) == digits_value(d.drop_last()) * 10 + ((d.last() as u32) - 48) as nat);
    }
}

/// An ASCII digit is neither whitespace nor a line ending.
pub(crate) proof fn lemma_digit_is_plain(c: char)
    requires
        is_ascii_digit(c),
    ensures
        !is_white_space(c),
        c != '\n',
        c != '\r',
{
    assert(('\n' as u32) == 10);
    assert(('\r' as u32) == 13);
}

proof fn lemma_line_len_ended(a: Seq<char>, b: Seq<char>)
    requires
        a.len() > 0,
        a.last() == '\n',
    ensures
        line_len(a + b) == line_len(a),
        line_len(a) < a.len(),
    decreases a.len(),
{
    if a[0] != '\n' {
        assert((a + b).drop_first() =~= a.drop_first() + b);
        lemma_line_len_ended(a.drop_first(), b);
    } else {
        assert((a + b)[0] == '\n');
    }
}

proof fn lemma_line_len_plain(x: Seq<char>, y: Seq<char>)
    requires
        forall|i: int| 0 <= i < x.len() ==> x[i] != '\n',
        y.len() > 0,
        y[0] == '\n',
    ensures
        line_len(x + y) == x.len(),
    decreases x.len(),
{
    if x.len() == 0 {
        assert(x + y =~= y);
    } else {
        assert((x + y)[0] == x[0]);
        assert((x + y).drop_first() =~= x.drop_first() + y);
        lemma_line_len_plain(x.drop_first(), y);
    }
}

/// Text that ends a line (or is empty) followed by more text has the lines
/// of both parts.
pub(crate) proof fn lemma_lines_of_append(a: Seq<char>, b: Seq<char>)
    requires
        a.len() == 0 || a.last() == '\n',
    ensures
        lines_of(a + b) == lines_of(a) + lines_of(b),
    decreases a.len(),
{
    if a.len() == 0 {
        assert(a + b =~= b);
        assert(lines_of(a) + lines_of(b) =~= lines_of(b));
    } else {
        lemma_line_len_ended(a, b);
        let k = line_len(a);
        let rest = a.skip(k as int + 1);
        assert((a + b).take(k as int) =~= a.take(k as int));
        assert((a + b).skip(k as int + 1) =~= rest + b);
        if rest.len() > 0 {
            assert(rest.last() == a.last());
        }
        lemma_lines_of_append(rest, b);
        assert(lines_of(a + b) =~= lines_of(a) + lines_of(b));
    }
}

/// A line holding no line ending, followed by `\n`, reads as that line.
pub(crate) proof fn lemma_lines_of_line(line: Seq<char>)
    requires
        forall|i: int| 0 <= i < line.len() ==> line[i] != '\n',
        line.len() > 0 ==> line.last() != '\r',
    ensures
        lines_of(line + seq!['\n']) == seq![line],
{
    let s = line + seq!['\n'];
    lemma_line_len_plain(line, seq!['\n']);
    assert(s.take(line.len() as int) =~= line);
    assert(s.skip(line.len() as int + 1) =~= Seq::<char>::empty());
    assert(strip_cr(line) == line);
    assert(lines_of(Seq::<char>::empty()) =~= Seq::<Seq<char>>::empty());
    assert(lines_of(s) == seq![strip_cr(line)] + lines_of(Seq::<char>::empty()));
    assert(lines_of(s) =~= seq![line]);
}

proof fn lemma_word_len_plain(x: Seq<char>, y: Seq<char>)
    requires
        forall|i: int| 0 <= i < x.len() ==> !is_white_space(#[trigger] x[i]),
        y.len() == 0 || is_white_space(y[0]),
    ensures
        word_len(x + y) == x.len(),
    decreases x.len(),
{
    if x.len() == 0 {
        assert(x + y =~= y);
    } else {
        assert((x + y)[0] == x[0]);
        assert((x + y).drop_first() =~= x.drop_first() + y);
        assert forall|i: int| 0 <= i < x.drop_first().len() implies !is_white_space(#[trigger] x.drop_first()[i]) by {
            assert(x.drop_first()[i] == x[i + 1]);
        }
        lemma_word_len_plain(x.drop_first(), y);
    }
}

/// Two runs of non-whitespace characters separated by a tab are two words.
pub(crate) proof fn lemma_words_of_pair(x: Seq<char>, y: Seq<char>)
    requires
        x.len() > 0,
        y.len() > 0,
        forall|i: int| 0 <= i < x.len() ==> !is_white_space(#[trigger] x[i]),
        forall|i: int| 0 <= i < y.len() ==> !is_white_space(#[trigger] y[i]),
    ensures
        words_of(x + seq!['\t'] + y) == seq![x, y],
{
    let s = x + seq!['\t'] + y;
    assert(s =~= x + (seq!['\t'] + y));
    assert(is_white_space('\t')) by { assert(('\t' as u32) == 9); }
    lemma_word_len_plain(x, seq!['\t'] + y);
    assert(s[0] == x[0]);
    assert(s.take(x.len() as int) =~= x);
    let t = s.skip(x.len() as int);
    assert(t =~= seq!['\t'] + y);
    assert(t.drop_first() =~= y);
    assert(y + Seq::<char>::empty() =~= y);
    lemma_word_len_plain(y, Seq::<char>::empty());
    assert(words_of(y) =~= seq![y]);
    assert(words_of(t) =~= seq![y]);
    assert(words_of(s) =~= seq![x, y]);
}

/// Writing an id in base 10 and reading it back gives the id.
pub proof fn law_decimal_reads_back(n: u64)
    ensures
        parse_index_spec(decimal(n as nat)) == Some(n),
{
    lemma_decimal_digits(n as nat);
}

/// Calls `str::lines` and collects the lines, as `lines_of` states them.
#[verifier::external_body]
pub(crate) fn text_lines(s: &str) -> (r: Vec<&str>)
    ensures
        r@.map_values(|l: &str| l@) == lines_of(s@),
{
    s.lines().collect()
}

/// Calls `str::split_whitespace` and collects the words, as `words_of`
/// states them.
#[verifier::external_body]
pub(crate) fn text_words(s: &str) -> (r: Vec<&str>)
    ensures
        r@.map_values(|w: &str| w@) == words_of(s@),
{
    s.split_whitespace().collect()
}

/// Calls `str::parse::<u64>`: `Some` exactly when `s` is an optional `+`
/// followed by ASCII digits of a value that fits in 64 bits.
#[verifier::external_body]
pub(crate) fn parse_index(s: &str) -> (r: Option<u64>)
    ensures
        r == parse_index_spec(s@),
{
    s.parse::<u64>().ok()
}

/// Formats `a`, a tab, `b` and a newline with `format!`; an integer is
/// displayed in base 10 without leading zeros.
#[verifier::external_body]
pub(crate) fn pair_line(a: u64, b: u64) -> (r: String)
    ensures
        r@ == decimal(a as nat) + seq!['\t'] + decimal(b as nat) + seq!['\n'],
{
    format!("{}\t{}\n", a, b)
}

/// Compares two strings with `==` on `str`: equal exactly when they hold
/// the same characters.
#[verifier::external_body]
pub(crate) fn str_eq(a: &str, b: &str) -> (r: bool)
    ensures
        r == (a@ == b@),
{
    a == b
}

/// Calls `str::to_lowercase`; the result is named by `lowercase`.
#[verifier::external_body]
pub(crate) fn to_lowercase(s: &str) -> (r: String)
    ensures
        r@ == lowercase(s@),
{
    s.to_lowercase()
}

} // verus!
