//! Text operations, and what they mean on sequences of characters.

use vstd::prelude::*;

verus! {

/// Unicode's `White_Space` property.
pub open spec fn white_space(c: char) -> bool {
    let n = c as u32;
    ||| 0x9 <= n <= 0xd
    ||| n == 0x20
    ||| n == 0x85
    ||| n == 0xa0
    ||| n == 0x1680
    ||| 0x2000 <= n <= 0x200a
    ||| n == 0x2028
    ||| n == 0x2029
    ||| n == 0x202f
    ||| n == 0x205f
    ||| n == 0x3000
}

/// `s` without its leading white space.
pub open spec fn trim_start(s: Seq<char>) -> Seq<char>
    decreases s.len(),
{
    if s.len() > 0 && white_space(s.first()) {
        trim_start(s.drop_first())
    } else {
        s
    }
}

/// `s` without its trailing white space.
pub open spec fn trim_end(s: Seq<char>) -> Seq<char>
    decreases s.len(),
{
    if s.len() > 0 && white_space(s.last()) {
        trim_end(s.drop_last())
    } else {
        s
    }
}

/// `s` without leading and trailing white space.
pub open spec fn trimmed(s: Seq<char>) -> Seq<char> {
    trim_end(trim_start(s))
}

/// Whether `s` holds nothing but white space.
pub open spec fn blank(s: Seq<char>) -> bool {
    trimmed(s).len() == 0
}

/// [`char::is_whitespace`] tests for Unicode's `White_Space` property.
pub assume_specification[ char::is_whitespace ](c: char) -> (r: bool)
    ensures
        r == white_space(c),
;

/// [`str::trim`] removes leading and trailing Unicode white space.
pub assume_specification[ str::trim ](s: &str) -> (r: &str)
    ensures
        r@ == trimmed(s@),
;

/// The small letter for an ASCII capital; every other character itself.
pub open spec fn ascii_lower(c: char) -> char {
    if 'A' <= c <= 'Z' {
        (c as u32 + 32) as char
    } else {
        c
    }
}

/// The capital for a small ASCII letter; every other character itself.
pub open spec fn ascii_upper(c: char) -> char {
    if 'a' <= c <= 'z' {
        (c as u32 - 32) as char
    } else {
        c
    }
}

/// Whether every character of `s` is an ASCII character.
pub open spec fn all_ascii(s: Seq<char>) -> bool {
    forall|i: int| 0 <= i < s.len() ==> (#[trigger] s[i]) as u32 <= 0x7f
}

/// Equality up to the case of ASCII letters.
pub open spec fn same_ignoring_case(a: Seq<char>, b: Seq<char>) -> bool {
    &&& a.len() == b.len()
    &&& forall|i: int| 0 <= i < a.len() ==> ascii_lower(#[trigger] a[i]) == ascii_lower(b[i])
}

/// [`str::eq_ignore_ascii_case`] compares up to the case of ASCII letters.
pub assume_specification[ str::eq_ignore_ascii_case ](s: &str, other: &str) -> (r: bool)
    ensures
        r == same_ignoring_case(s@, other@),
;

/// ASCII text in small letters.
pub open spec fn ascii_lowered(s: Seq<char>) -> Seq<char> {
    Seq::new(s.len(), |i: int| ascii_lower(s[i]))
}

/// ASCII text in capitals.
pub open spec fn ascii_raised(s: Seq<char>) -> Seq<char> {
    Seq::new(s.len(), |i: int| ascii_upper(s[i]))
}

/// The text that Unicode's lower-case mapping makes of `s`: what [`str::to_lowercase`] returns.
pub uninterp spec fn lowercased(s: Seq<char>) -> Seq<char>;

/// The text that Unicode's upper-case mapping makes of `s`: what [`str::to_uppercase`] returns.
pub uninterp spec fn uppercased(s: Seq<char>) -> Seq<char>;

/// [`str::to_lowercase`] maps by Unicode's lower-case mapping, a function of the text alone. On
/// ASCII text it maps each capital to its small letter.
pub assume_specification[ str::to_lowercase ](s: &str) -> (r: String)
    ensures
        r@ == lowercased(s@),
        all_ascii(s@) ==> r@ == ascii_lowered(s@),
;

/// [`str::to_uppercase`] maps by Unicode's upper-case mapping, a function of the text alone. On
/// ASCII text it maps each small letter to its capital.
pub assume_specification[ str::to_uppercase ](s: &str) -> (r: String)
    ensures
        r@ == uppercased(s@),
        all_ascii(s@) ==> r@ == ascii_raised(s@),
;

/// `s` in lower case: letter by letter for ASCII text, and by Unicode's mapping for any other.
pub open spec fn lower_case(s: Seq<char>) -> Seq<char> {
    if all_ascii(s) {
        ascii_lowered(s)
    } else {
        lowercased(s)
    }
}

/// `s` in upper case: letter by letter for ASCII text, and by Unicode's mapping for any other.
pub open spec fn upper_case(s: Seq<char>) -> Seq<char> {
    if all_ascii(s) {
        ascii_raised(s)
    } else {
        uppercased(s)
    }
}

/// Whether `s` begins with `prefix`.
pub open spec fn begins_with(s: Seq<char>, prefix: Seq<char>) -> bool {
    prefix.len() <= s.len() && s.take(prefix.len() as int) == prefix
}

/// [`str::starts_with`] for a text pattern: whether `s` begins with `prefix`.
#[verifier::external_body]
pub(crate) fn starts_with(s: &str, prefix: &str) -> (r: bool)
    ensures
        r == begins_with(s@, prefix@),
{
    s.starts_with(prefix)
}

/// Whether `part` stands somewhere in `s`.
pub open spec fn holds_text(s: Seq<char>, part: Seq<char>) -> bool {
    exists|i: int|
        0 <= i <= s.len() - part.len() && #[trigger] s.subrange(i, i + part.len()) == part
}

/// [`str::contains`] for a text pattern: whether `part` stands somewhere in `s`.
#[verifier::external_body]
pub(crate) fn contains(s: &str, part: &str) -> (r: bool)
    ensures
        r == holds_text(s@, part@),
{
    s.contains(part)
}

/// How many characters of `s` come before the first white space.
pub open spec fn word_len(s: Seq<char>) -> nat
    decreases s.len(),
{
    if s.len() == 0 || white_space(s.first()) {
        0
    } else {
        1 + word_len(s.drop_first())
    }
}

/// The part of `s` before the first white space.
pub open spec fn first_word(s: Seq<char>) -> Seq<char> {
    s.take(word_len(s) as int)
}

/// A word ends where white space or the text's end is first met.
proof fn lemma_word_len(s: Seq<char>, k: int)
    requires
        0 <= k <= s.len(),
        forall|i: int| 0 <= i < k ==> !white_space(#[trigger] s[i]),
        k == s.len() || white_space(s[k]),
    ensures
        word_len(s) == k,
    decreases k,
{
    if k > 0 {
        let rest = s.drop_first();
        assert(forall|i: int| 0 <= i < k - 1 ==> rest[i] == s[i + 1]);
        assert(k - 1 < rest.len() ==> rest[k - 1] == s[k]);
        lemma_word_len(rest, k - 1);
    }
}

/// The part of `s` before the first white space.
pub fn leading_word<'a>(s: &'a str) -> (r: &'a str)
    ensures
        r@ == first_word(s@),
{
    let len: usize = s.unicode_len();
    let mut k: usize = 0;
    while k < len && !s.get_char(k).is_whitespace()
        invariant
            k <= len == s@.len(),
            forall|i: int| 0 <= i < k ==> !white_space(#[trigger] s@[i]),
        decreases len - k,
    {
        k = k + 1;
    }
    proof {
        lemma_word_len(s@, k as int);
    }
    s.substring_char(0, k)
}

/// The number that decimal digits denote.
pub open spec fn digits_value(s: Seq<char>) -> nat
    decreases s.len(),
{
    if s.len() == 0 {
        0
    } else {
        10 * digits_value(s.drop_last()) + (s.last() as u32 - '0' as u32) as nat
    }
}

/// `s` without a leading plus sign.
pub open spec fn without_plus(s: Seq<char>) -> Seq<char> {
    if s.len() > 0 && s.first() == '+' {
        s.drop_first()
    } else {
        s
    }
}

/// Whether `s` is made of decimal digits, of one at least.
pub open spec fn all_digits(s: Seq<char>) -> bool {
    s.len() > 0 && forall|i: int| 0 <= i < s.len() ==> '0' <= #[trigger] s[i] <= '9'
}

/// The number that `s` denotes: an optional plus sign, then one decimal digit or more.
pub open spec fn unsigned_value(s: Seq<char>) -> Option<nat> {
    if all_digits(without_plus(s)) {
        Some(digits_value(without_plus(s)))
    } else {
        None
    }
}

/// The `u64` that `s` denotes, if it denotes one.
pub open spec fn u64_value(s: Seq<char>) -> Option<u64> {
    match unsigned_value(s) {
        Some(n) => if n <= u64::MAX {
            Some(n as u64)
        } else {
            None
        },
        None => None,
    }
}

/// [`str::parse`] for `u64`: an optional plus sign followed by decimal digits, whose number fits.
#[verifier::external_body]
pub(crate) fn parse_u64(s: &str) -> (r: Option<u64>)
    ensures
        r == u64_value(s@),
{
    s.parse::<u64>().ok()
}

/// The character for the decimal digit `d`.
pub open spec fn digit_char(d: nat) -> char {
    ('0' as u32 + d) as char
}

/// `n` in decimal digits, without leading zeros.
pub open spec fn digits(n: nat) -> Seq<char>
    decreases n,
{
    if n < 10 {
        seq![digit_char(n)]
    } else {
        digits(n / 10).push(digit_char(n % 10))
    }
}

/// `n` in decimal, with a minus sign where it is negative.
pub open spec fn decimal(n: int) -> Seq<char> {
    if n < 0 {
        seq!['-'] + digits((-n) as nat)
    } else {
        digits(n as nat)
    }
}

fn digit_text(d: u64) -> (r: &'static str)
    requires
        d < 10,
    ensures
        r@ == seq![digit_char(d as nat)],
{
    proof {
        reveal_strlit("0");
        reveal_strlit("1");
        reveal_strlit("2");
        reveal_strlit("3");
        reveal_strlit("4");
        reveal_strlit("5");
        reveal_strlit("6");
        reveal_strlit("7");
        reveal_strlit("8");
        reveal_strlit("9");
    }
    if d == 0 {
        "0"
    } else if d == 1 {
        "1"
    } else if d == 2 {
        "2"
    } else if d == 3 {
        "3"
    } else if d == 4 {
        "4"
    } else if d == 5 {
        "5"
    } else if d == 6 {
        "6"
    } else if d == 7 {
        "7"
    } else if d == 8 {
        "8"
    } else {
        "9"
    }
}

fn push_digits(out: &mut String, n: u64)
    ensures
        final(out)@ == old(out)@ + digits(n as nat),
    decreases n,
{
    if n >= 10 {
        push_digits(out, n / 10);
    }
    out.append(digit_text(n % 10));
}

/// `n` in decimal.
pub fn unsigned_text(n: u64) -> (r: String)
    ensures
        r@ == decimal(n as int),
{
    let mut out: String = String::new();
    push_digits(&mut out, n);
    out
}

/// `n` in decimal.
pub fn signed_text(n: i64) -> (r: String)
    ensures
        r@ == decimal(n as int),
{
    let mut out: String = String::new();
    if n < 0 {
        proof {
            reveal_strlit("-");
        }
        out.append("-");
        let magnitude: u64 = (-(n as i128)) as u64;
        push_digits(&mut out, magnitude);
    } else {
        push_digits(&mut out, n as u64);
    }
    out
}

/// `a` followed by `b`.
pub fn join(a: &str, b: &str) -> (r: String)
    ensures
        r@ == a@ + b@,
{
    let mut out: String = a.to_string();
    out.append(b);
    out
}

/// `a`, `b` and `c`, one after the other.
pub fn join3(a: &str, b: &str, c: &str) -> (r: String)
    ensures
        r@ == a@ + b@ + c@,
{
    let mut out: String = a.to_string();
    out.append(b);
    out.append(c);
    out
}

/// Whether `a` and `b` are the same text.
pub fn same_text(a: &str, b: &str) -> (r: bool)
    ensures
        r == (a@ == b@),
{
    a.to_string() == b.to_string()
}

/// The length of the UTF-8 encoding of `s`, in bytes.
pub open spec fn byte_len(s: Seq<char>) -> usize {
    vstd::utf8::encode_utf8(s).len() as usize
}

proof fn lemma_word_fits(s: Seq<char>)
    ensures
        word_len(s) <= s.len(),
        first_word(s).len() == word_len(s),
    decreases s.len(),
{
    if s.len() > 0 {
        lemma_word_fits(s.drop_first());
    }
}

/// The first word of a text is what stands before its first white space: it holds none, and white
/// space or the end of the text follows it.
pub proof fn law_first_word(s: Seq<char>)
    ensures
        ({
            let word = first_word(s);
            &&& word.len() <= s.len()
            &&& forall|i: int|
                0 <= i < word.len() ==> #[trigger] word[i] == s[i] && !white_space(s[i])
            &&& word.len() < s.len() ==> white_space(s[word.len() as int])
        }),
    decreases s.len(),
{
    lemma_word_fits(s);
    if s.len() > 0 && !white_space(s.first()) {
        let rest = s.drop_first();
        lemma_word_fits(rest);
        law_first_word(rest);
        assert(first_word(s).len() == 1 + first_word(rest).len());
        assert forall|i: int| 0 <= i < first_word(s).len() implies #[trigger] first_word(s)[i] == s[i]
            && !white_space(s[i]) by {
            if i > 0 {
                assert(first_word(rest)[i - 1] == rest[i - 1]);
            }
        }
    }
}

/// A number is written in decimal digits that denote it, without a zero in front; a negative one
/// stands behind a minus sign.
pub proof fn law_numbers_are_written_in_decimal(n: nat)
    ensures
        decimal(n as int) == digits(n),
        digits_value(digits(n)) == n,
        all_digits(digits(n)),
        n > 0 ==> digits(n)[0] != '0' && decimal(-(n as int)) == seq!['-'] + digits(n),
        n == 0 ==> digits(n) == seq!['0'],
    decreases n,
{
    if n >= 10 {
        law_numbers_are_written_in_decimal(n / 10);
        assert(digits(n).drop_last() =~= digits(n / 10));
        assert(digits(n)[0] == digits(n / 10)[0]);
        assert forall|i: int| 0 <= i < digits(n).len() implies '0' <= #[trigger] digits(n)[i] <= '9' by {
            if i < digits(n / 10).len() {
                assert(digits(n)[i] == digits(n / 10)[i]);
            }
        }
    } else {
        reveal_with_fuel(digits_value, 2);
        assert(digits(n).drop_last() =~= Seq::empty());
    }
}

} // verus!
