//! Typed values from argument tokens.
//!
//! A token is read as the first of these that fits: a quoted string, an
//! integer, a floating-point literal, a boolean, and else the token itself
//! as a string.

use crate::text::chars_of;
use vstd::prelude::*;
use vstd::slice::slice_subrange;

verus! {

/// The typed value of an argument token.
#[derive(Debug, PartialEq, Eq)]
pub enum ParsedArg {
    /// A signed 64-bit integer.
    Integer(i64),
    /// A floating-point literal, kept as the text that denotes it.
    Float(String),
    /// A boolean.
    Boolean(bool),
    /// A string.
    String(String),
}

/// What a [`ParsedArg`] stands for.
pub enum Literal {
    /// An integer.
    Integer(int),
    /// A floating-point literal with this text.
    Float(Seq<char>),
    /// A boolean.
    Boolean(bool),
    /// A string.
    Text(Seq<char>),
}

impl View for ParsedArg {
    type V = Literal;

    open spec fn view(&self) -> Literal {
        match self {
            ParsedArg::Integer(value) => Literal::Integer(*value as int),
            ParsedArg::Float(text) => Literal::Float(text@),
            ParsedArg::Boolean(value) => Literal::Boolean(*value),
            ParsedArg::String(text) => Literal::Text(text@),
        }
    }
}

/// A single or a double quote.
pub open spec fn is_quote(c: char) -> bool {
    c == '\'' || c == '"'
}

/// Whether `s` is wrapped in one pair of matching quotes.
pub open spec fn is_quoted(s: Seq<char>) -> bool {
    s.len() >= 2 && is_quote(s[0]) && s.last() == s[0]
}

/// A decimal digit.
pub open spec fn is_digit(c: char) -> bool {
    '0' <= c && c <= '9'
}

/// A plus or a minus sign.
pub open spec fn is_sign(c: char) -> bool {
    c == '+' || c == '-'
}

/// The value of a decimal digit.
pub open spec fn digit_value(c: char) -> int {
    c as int - '0' as int
}

/// Whether `s` holds digits only.
pub open spec fn all_digits(s: Seq<char>) -> bool {
    forall|i: int| 0 <= i < s.len() ==> is_digit(#[trigger] s[i])
}

/// The number that a run of digits denotes in base ten.
pub open spec fn digits_value(s: Seq<char>) -> int
    decreases s.len(),
{
    if s.len() == 0 {
        0
    } else {
        digits_value(s.drop_last()) * 10 + digit_value(s.last())
    }
}

/// `s` without its leading sign, if it has one.
pub open spec fn unsigned_part(s: Seq<char>) -> Seq<char> {
    if s.len() > 0 && is_sign(s[0]) {
        s.skip(1)
    } else {
        s
    }
}

/// The integer that `s` denotes: an optional sign and at least one digit,
/// nothing else, with a value that fits in 64 bits.
pub open spec fn integer_of(s: Seq<char>) -> Option<int> {
    let digits = unsigned_part(s);
    let value = if s.len() > 0 && s[0] == '-' {
        -digits_value(digits)
    } else {
        digits_value(digits)
    };
    if digits.len() > 0 && all_digits(digits) && i64::MIN <= value <= i64::MAX {
        Some(value)
    } else {
        None
    }
}

/// The index just past the run of digits that starts at `from`.
pub open spec fn digits_end(s: Seq<char>, from: int) -> int
    decreases s.len() - from,
{
    if 0 <= from < s.len() && is_digit(s[from]) {
        digits_end(s, from + 1)
    } else {
        from
    }
}

/// The lower-case form of an ASCII letter; any other character itself.
pub open spec fn ascii_lower(c: char) -> char {
    if 'A' <= c && c <= 'Z' {
        ((c as int) + 32) as char
    } else {
        c
    }
}

/// Whether `s` is `word` but for the case of its ASCII letters.
pub open spec fn same_ignoring_case(s: Seq<char>, word: Seq<char>) -> bool {
    s.len() == word.len() && forall|i: int|
        0 <= i < s.len() ==> ascii_lower(#[trigger] s[i]) == word[i]
}

/// Whether `s` names infinity or not-a-number.
pub open spec fn is_special_float(s: Seq<char>) -> bool {
    same_ignoring_case(s, "inf"@) || same_ignoring_case(s, "infinity"@) || same_ignoring_case(
        s,
        "nan"@,
    )
}

/// Whether `s` is an exponent: the letter `e`, an optional sign, and at
/// least one digit.
pub open spec fn is_exponent(s: Seq<char>) -> bool {
    &&& s.len() >= 2
    &&& s[0] == 'e' || s[0] == 'E'
    &&& {
        let start: int = if is_sign(s[1]) {
            2
        } else {
            1
        };
        start < s.len() && digits_end(s, start) == s.len()
    }
}

/// Whether `s` is an unsigned decimal number: digits with an optional point
/// among them, before it or behind it, at least one digit in all, and an
/// optional exponent.
pub open spec fn is_decimal_float(s: Seq<char>) -> bool {
    let whole_end = digits_end(s, 0);
    let fraction_start = if whole_end < s.len() && s[whole_end] == '.' {
        whole_end + 1
    } else {
        whole_end
    };
    let fraction_end = digits_end(s, fraction_start);
    &&& whole_end > 0 || fraction_end > fraction_start
    &&& fraction_end == s.len() || is_exponent(s.skip(fraction_end))
}

/// Whether `s` is a floating-point literal: an optional sign before a
/// decimal number, or before a name of infinity or not-a-number.
pub open spec fn is_float_literal(s: Seq<char>) -> bool {
    is_special_float(unsigned_part(s)) || is_decimal_float(unsigned_part(s))
}

/// The boolean that `s` denotes.
pub open spec fn boolean_of(s: Seq<char>) -> Option<bool> {
    if s == "true"@ {
        Some(true)
    } else if s == "false"@ {
        Some(false)
    } else {
        None
    }
}

/// The typed value of a token. Quotes come first and force a string; the
/// other readings are tried in the order integer, float, boolean.
pub open spec fn literal_of(s: Seq<char>) -> Literal {
    if is_quoted(s) {
        Literal::Text(s.subrange(1, s.len() - 1))
    } else if integer_of(s) is Some {
        Literal::Integer(integer_of(s)->Some_0)
    } else if is_float_literal(s) {
        Literal::Float(s)
    } else if boolean_of(s) is Some {
        Literal::Boolean(boolean_of(s)->Some_0)
    } else {
        Literal::Text(s)
    }
}

/// The index of the first `c` in `s` at or after `from`, or the length of
/// `s` where there is none.
pub open spec fn position_of(s: Seq<char>, c: char, from: int) -> int
    decreases s.len() - from,
{
    if 0 <= from < s.len() && s[from] != c {
        position_of(s, c, from + 1)
    } else {
        from
    }
}

/// The key and the typed value of a `key=value` token, split at its first
/// equals sign; `None` for a token without one.
pub open spec fn key_value_of(s: Seq<char>) -> Option<(Seq<char>, Literal)> {
    let at = position_of(s, '=', 0);
    if at < s.len() {
        Some((s.take(at), literal_of(s.skip(at + 1))))
    } else {
        None
    }
}

fn digit_at(chars: &[char], index: usize) -> (r: bool)
    requires
        index < chars@.len(),
    ensures
        r == is_digit(chars@[index as int]),
{
    let c: char = chars[index];
    '0' <= c && c <= '9'
}

fn sign_at(chars: &[char], index: usize) -> (r: bool)
    requires
        index < chars@.len(),
    ensures
        r == is_sign(chars@[index as int]),
{
    let c: char = chars[index];
    c == '+' || c == '-'
}

fn scan_digits(chars: &[char], from: usize) -> (end: usize)
    requires
        from <= chars@.len(),
    ensures
        end == digits_end(chars@, from as int),
        from <= end <= chars@.len(),
        forall|i: int| from <= i < end ==> is_digit(#[trigger] chars@[i]),
{
    let mut end: usize = from;
    while end < chars.len() && digit_at(chars, end)
        invariant
            from <= end <= chars@.len(),
            digits_end(chars@, from as int) == digits_end(chars@, end as int),
            forall|i: int| from <= i < end ==> is_digit(#[trigger] chars@[i]),
        decreases chars@.len() - end,
    {
        end = end + 1;
    }
    end
}

proof fn lemma_digits_value_push(s: Seq<char>, c: char)
    ensures
        digits_value(s.push(c)) == digits_value(s) * 10 + digit_value(c),
{
    assert(s.push(c).drop_last() =~= s);
}

proof fn lemma_digits_value_grows(s: Seq<char>, k: int)
    requires
        all_digits(s),
        0 <= k <= s.len(),
    ensures
        0 <= digits_value(s.take(k)) <= digits_value(s),
    decreases s.len() - k,
{
    lemma_digits_value_nonnegative(s.take(k));
    if k < s.len() {
        assert(s.take(k + 1) =~= s.take(k).push(s[k]));
        lemma_digits_value_push(s.take(k), s[k]);
        lemma_digits_value_grows(s, k + 1);
    } else {
        assert(s.take(k) =~= s);
    }
}

proof fn lemma_digits_value_nonnegative(s: Seq<char>)
    requires
        all_digits(s),
    ensures
        0 <= digits_value(s),
    decreases s.len(),
{
    if s.len() > 0 {
        lemma_digits_value_nonnegative(s.drop_last());
    }
}

/// Reads `chars` as an integer.
fn parse_integer(chars: &[char]) -> (r: Option<i64>)
    ensures
        r is Some <==> integer_of(chars@) is Some,
        r matches Some(value) ==> integer_of(chars@) == Some(value as int),
{
    let n: usize = chars.len();
    let signed: bool = n > 0 && sign_at(chars, 0);
    let negative: bool = n > 0 && chars[0] == '-';
    let start: usize = if signed {
        1
    } else {
        0
    };
    let ghost digits = unsigned_part(chars@);
    assert(digits =~= chars@.subrange(start as int, n as int));
    if start == n {
        return None;
    }
    let limit: u64 = 0x8000_0000_0000_0000;
    let mut magnitude: u64 = 0;
    let mut i: usize = start;
    while i < n
        invariant
            start <= i <= n,
            n == chars@.len(),
            digits == chars@.subrange(start as int, n as int),
            digits == unsigned_part(chars@),
            all_digits(digits.take(i - start)),
            magnitude == digits_value(digits.take(i - start)),
            magnitude <= limit,
            limit == 0x8000_0000_0000_0000,
        decreases n - i,
    {
        if !digit_at(chars, i) {
            assert(!is_digit(digits[i - start]));
            return None;
        }
        let c: char = chars[i];
        let d: u64 = (c as u32 - '0' as u32) as u64;
        proof {
            assert(digits.take(i - start + 1) =~= digits.take(i - start).push(c));
            lemma_digits_value_push(digits.take(i - start), c);
            assert(d == digit_value(c));
        }
        if magnitude > (limit - d) / 10 {
            proof {
                let longer = digits.take(i - start + 1);
                assert(digits_value(longer) > limit);
                if all_digits(digits) {
                    lemma_digits_value_grows(digits, i - start + 1);
                }
            }
            return None;
        }
        magnitude = magnitude * 10 + d;
        i = i + 1;
    }
    assert(digits.take(n - start) =~= digits);
    if negative {
        if magnitude == limit {
            Some(i64::MIN)
        } else {
            Some(-(magnitude as i64))
        }
    } else if magnitude == limit {
        None
    } else {
        Some(magnitude as i64)
    }
}

fn lower(c: char) -> (r: char)
    ensures
        r == ascii_lower(c),
{
    if 'A' <= c && c <= 'Z' {
        ((c as u8) + 32) as char
    } else {
        c
    }
}

fn same_word(chars: &[char], word: &str, fold_case: bool) -> (r: bool)
    ensures
        fold_case ==> r == same_ignoring_case(chars@, word@),
        !fold_case ==> r == (chars@ == word@),
{
    let n: usize = chars.len();
    if word.unicode_len() != n {
        return false;
    }
    let mut i: usize = 0;
    while i < n
        invariant
            i <= n,
            n == chars@.len(),
            n == word@.len(),
            fold_case ==> forall|j: int| 0 <= j < i ==> ascii_lower(#[trigger] chars@[j]) == word@[j],
            !fold_case ==> forall|j: int| 0 <= j < i ==> #[trigger] chars@[j] == word@[j],
        decreases n - i,
    {
        let c: char = if fold_case {
            lower(chars[i])
        } else {
            chars[i]
        };
        if c != word.get_char(i) {
            return false;
        }
        i = i + 1;
    }
    assert(!fold_case ==> chars@ =~= word@);
    true
}

fn exponent(chars: &[char]) -> (r: bool)
    ensures
        r == is_exponent(chars@),
{
    let n: usize = chars.len();
    if n < 2 || !(chars[0] == 'e' || chars[0] == 'E') {
        return false;
    }
    let start: usize = if sign_at(chars, 1) {
        2
    } else {
        1
    };
    start < n && scan_digits(chars, start) == n
}

fn decimal_float(chars: &[char]) -> (r: bool)
    ensures
        r == is_decimal_float(chars@),
{
    let n: usize = chars.len();
    let whole_end: usize = scan_digits(chars, 0);
    let fraction_start: usize = if whole_end < n && chars[whole_end] == '.' {
        whole_end + 1
    } else {
        whole_end
    };
    let fraction_end: usize = scan_digits(chars, fraction_start);
    if !(whole_end > 0 || fraction_end > fraction_start) {
        return false;
    }
    if fraction_end == n {
        return true;
    }
    let rest: &[char] = slice_subrange(chars, fraction_end, n);
    assert(rest@ =~= chars@.skip(fraction_end as int));
    exponent(rest)
}

/// Whether `chars` is a floating-point literal.
fn float_literal(chars: &[char]) -> (r: bool)
    ensures
        r == is_float_literal(chars@),
{
    let n: usize = chars.len();
    let start: usize = if n > 0 && sign_at(chars, 0) {
        1
    } else {
        0
    };
    let body: &[char] = slice_subrange(chars, start, n);
    assert(body@ =~= unsigned_part(chars@));
    same_word(body, "inf", true) || same_word(body, "infinity", true) || same_word(
        body,
        "nan",
        true,
    ) || decimal_float(body)
}

/// Reads a token as a typed value.
pub fn parse_arg(input: &str) -> (value: ParsedArg)
    ensures
        value@ == literal_of(input@),
{
    let chars: Vec<char> = chars_of(input);
    let n: usize = chars.len();
    if n >= 2 && (chars[0] == '\'' || chars[0] == '"') && chars[n - 1] == chars[0] {
        return ParsedArg::String(input.substring_char(1, n - 1).to_owned());
    }
    match parse_integer(chars.as_slice()) {
        Some(value) => {
            return ParsedArg::Integer(value);
        },
        None => {},
    }
    if float_literal(chars.as_slice()) {
        return ParsedArg::Float(input.to_owned());
    }
    if same_word(chars.as_slice(), "true", false) {
        return ParsedArg::Boolean(true);
    }
    if same_word(chars.as_slice(), "false", false) {
        return ParsedArg::Boolean(false);
    }
    ParsedArg::String(input.to_owned())
}

/// Splits a `key=value` token at its first equals sign and reads the value.
/// A token without an equals sign gives no pair.
pub fn parse_key_value(input: &str) -> (pair: Option<(String, ParsedArg)>)
    ensures
        pair is Some <==> key_value_of(input@) is Some,
        pair matches Some((key, value)) ==> key_value_of(input@) == Some((key@, value@)),
        pair is None <==> !input@.contains('='),
{
    let chars: Vec<char> = chars_of(input);
    let n: usize = chars.len();
    let mut at: usize = 0;
    while at < n && chars[at] != '='
        invariant
            at <= n,
            n == chars@.len(),
            position_of(chars@, '=', 0) == position_of(chars@, '=', at as int),
            forall|j: int| 0 <= j < at ==> #[trigger] chars@[j] != '=',
        decreases n - at,
    {
        at = at + 1;
    }
    if at < n {
        let key: String = input.substring_char(0, at).to_owned();
        let value: ParsedArg = parse_arg(input.substring_char(at + 1, n));
        assert(input@.subrange(0, at as int) =~= input@.take(at as int));
        assert(input@.subrange(at + 1, n as int) =~= input@.skip(at + 1));
        assert(input@[at as int] == '=');
        Some((key, value))
    } else {
        assert(!input@.contains('=')) by {
            if input@.contains('=') {
                let j = choose|j: int| 0 <= j < input@.len() && input@[j] == '=';
                assert(chars@[j] != '=');
            }
        }
        None
    }
}

proof fn lemma_position_of(s: Seq<char>, c: char, from: int)
    requires
        0 <= from <= s.len(),
    ensures
        from <= position_of(s, c, from) <= s.len(),
        forall|j: int| from <= j < position_of(s, c, from) ==> s[j] != c,
        position_of(s, c, from) < s.len() ==> s[position_of(s, c, from)] == c,
    decreases s.len() - from,
{
    if from < s.len() && s[from] != c {
        lemma_position_of(s, c, from + 1);
    }
}

/// A token gives a pair exactly if it holds an equals sign. The key is what
/// stands before the first one and holds none itself; the value is read from
/// what stands behind it, further equals signs included.
pub proof fn lemma_pair_needs_equals(s: Seq<char>)
    ensures
        key_value_of(s) is Some <==> s.contains('='),
        key_value_of(s) matches Some((key, value)) ==> {
            &&& !key.contains('=')
            &&& key.len() < s.len()
            &&& s == key + seq!['='] + s.skip(key.len() as int + 1)
            &&& value == literal_of(s.skip(key.len() as int + 1))
        },
{
    lemma_position_of(s, '=', 0);
    let at = position_of(s, '=', 0);
    if at < s.len() {
        assert(s.contains('='));
        let key = s.take(at);
        assert(s =~= key + seq!['='] + s.skip(at + 1));
        if key.contains('=') {
            let j = choose|j: int| 0 <= j < key.len() && key[j] == '=';
            assert(s[j] == '=');
        }
    } else if s.contains('=') {
        let j = choose|j: int| 0 <= j < s.len() && s[j] == '=';
        assert(s[j] != '=');
    }
}

/// Every token that reads as an integer also has the shape of a
/// floating-point literal: it is the order of the readings that makes it an
/// integer.
pub proof fn lemma_integer_is_float_shaped(s: Seq<char>)
    requires
        integer_of(s) is Some,
    ensures
        is_float_literal(s),
        !is_quoted(s),
        literal_of(s) == Literal::Integer(integer_of(s)->Some_0),
{
    let digits = unsigned_part(s);
    lemma_digits_end_run(digits, 0, digits.len() as int);
    assert(is_decimal_float(digits));
    if is_quoted(s) {
        if is_sign(s[0]) {
        } else {
            assert(is_digit(digits[0]));
        }
    }
}

/// Quotes win over every other reading: a quoted token is the string
/// between its quotes, whatever that string would read as by itself.
pub proof fn lemma_quotes_force_string(s: Seq<char>)
    requires
        is_quoted(s),
    ensures
        literal_of(s) == Literal::Text(s.subrange(1, s.len() - 1)),
        integer_of(s) is None,
{
    if is_sign(s[0]) {
    } else {
        assert(!is_digit(unsigned_part(s)[0]));
    }
    assert(unsigned_part(s) == s);
}

/// The two booleans read as neither an integer nor a floating-point
/// literal, so they reach the boolean reading.
pub proof fn lemma_booleans_reach_their_reading(s: Seq<char>)
    requires
        boolean_of(s) is Some,
    ensures
        literal_of(s) == Literal::Boolean(boolean_of(s)->Some_0),
        s == "true"@ ==> boolean_of(s) == Some(true),
        s == "false"@ ==> boolean_of(s) == Some(false),
{
    reveal_strlit("true");
    reveal_strlit("false");
    reveal_strlit("inf");
    reveal_strlit("infinity");
    reveal_strlit("nan");
    assert(unsigned_part(s) == s);
    assert(!is_digit(s[0]));
    assert(digits_end(s, 0) == 0);
    assert(ascii_lower(s[0]) == s[0]);
    assert("true"@ != "false"@) by {
        assert("true"@.len() != "false"@.len());
    }
}

proof fn lemma_digits_end_run(s: Seq<char>, from: int, to: int)
    requires
        0 <= from <= to <= s.len(),
        forall|i: int| from <= i < to ==> is_digit(#[trigger] s[i]),
        to == s.len() || !is_digit(s[to]),
    ensures
        digits_end(s, from) == to,
    decreases to - from,
{
    if from < to {
        lemma_digits_end_run(s, from + 1, to);
    }
}

proof fn lemma_digits_end_bounds(s: Seq<char>, from: int)
    requires
        0 <= from <= s.len(),
    ensures
        from <= digits_end(s, from) <= s.len(),
        forall|i: int| from <= i < digits_end(s, from) ==> is_digit(#[trigger] s[i]),
        digits_end(s, from) == s.len() || !is_digit(s[digits_end(s, from)]),
    decreases s.len() - from,
{
    if from < s.len() && is_digit(s[from]) {
        lemma_digits_end_bounds(s, from + 1);
    }
}

/// The text of an exponent: the letter, the sign if there is one, and the
/// digits.
pub open spec fn exponent_text(letter: char, sign: Option<char>, digits: Seq<char>) -> Seq<char> {
    match sign {
        Some(c) => seq![letter, c] + digits,
        None => seq![letter] + digits,
    }
}

/// An exponent is the letter `e` in either case, an optional sign, and one
/// digit or more: every such text is an exponent, and every exponent is
/// such a text.
pub proof fn lemma_exponent_shape(s: Seq<char>)
    ensures
        is_exponent(s) <==> exists|letter: char, sign: Option<char>, digits: Seq<char>|
            {
                &&& #[trigger] exponent_text(letter, sign, digits) == s
                &&& letter == 'e' || letter == 'E'
                &&& sign matches Some(c) ==> is_sign(c)
                &&& digits.len() > 0
                &&& all_digits(digits)
            },
{
    if is_exponent(s) {
        let start: int = if is_sign(s[1]) {
            2
        } else {
            1
        };
        let sign = if is_sign(s[1]) {
            Some(s[1])
        } else {
            None
        };
        let digits = s.skip(start);
        lemma_digits_end_bounds(s, start);
        assert(exponent_text(s[0], sign, digits) =~= s);
        assert(all_digits(digits));
    }
    if exists|letter: char, sign: Option<char>, digits: Seq<char>|
        {
            &&& #[trigger] exponent_text(letter, sign, digits) == s
            &&& letter == 'e' || letter == 'E'
            &&& sign matches Some(c) ==> is_sign(c)
            &&& digits.len() > 0
            &&& all_digits(digits)
        } {
        let (letter, sign, digits) = choose|letter: char, sign: Option<char>, digits: Seq<char>|
            {
                &&& #[trigger] exponent_text(letter, sign, digits) == s
                &&& letter == 'e' || letter == 'E'
                &&& sign matches Some(c) ==> is_sign(c)
                &&& digits.len() > 0
                &&& all_digits(digits)
            };
        let start: int = if sign is Some {
            2
        } else {
            1
        };
        assert(forall|i: int| start <= i < s.len() ==> s[i] == digits[i - start]);
        assert(is_digit(digits[0]));
        assert(s[start] == digits[0]);
        assert(!is_sign(s[start]));
        lemma_digits_end_run(s, start, s.len() as int);
    }
}

/// The text of a decimal number: the digits before the point, the point
/// with the digits behind it where there is one, and the exponent.
pub open spec fn decimal_text(
    whole: Seq<char>,
    point: bool,
    fraction: Seq<char>,
    exponent: Seq<char>,
) -> Seq<char> {
    if point {
        whole + seq!['.'] + fraction + exponent
    } else {
        whole + exponent
    }
}

/// Whether these are the parts of a decimal number: digits before and
/// behind the point, at least one digit in all, none behind a point that is
/// not there, and an exponent or none.
pub open spec fn are_decimal_parts(
    whole: Seq<char>,
    point: bool,
    fraction: Seq<char>,
    exponent: Seq<char>,
) -> bool {
    &&& all_digits(whole)
    &&& all_digits(fraction)
    &&& point || fraction.len() == 0
    &&& whole.len() > 0 || fraction.len() > 0
    &&& exponent.len() == 0 || is_exponent(exponent)
}

proof fn lemma_decimal_parts_accepted(
    whole: Seq<char>,
    point: bool,
    fraction: Seq<char>,
    exponent: Seq<char>,
)
    requires
        are_decimal_parts(whole, point, fraction, exponent),
    ensures
        is_decimal_float(decimal_text(whole, point, fraction, exponent)),
{
    let s = decimal_text(whole, point, fraction, exponent);
    let at: int = whole.len() as int;
    assert(forall|i: int| 0 <= i < whole.len() ==> s[i] == whole[i]);
    if point {
        let end: int = at + 1 + fraction.len();
        assert(s[at] == '.');
        assert(forall|i: int| at + 1 <= i < end ==> s[i] == fraction[i - at - 1]);
        if exponent.len() > 0 {
            assert(s[end] == exponent[0]);
        }
        lemma_digits_end_run(s, 0, at);
        lemma_digits_end_run(s, at + 1, end);
        assert(s.skip(end) =~= exponent);
    } else {
        if exponent.len() > 0 {
            assert(s[at] == exponent[0]);
        }
        lemma_digits_end_run(s, 0, at);
        assert(s.skip(at) =~= exponent);
    }
}

/// A decimal number is digits, an optional point with digits behind it or
/// none, at least one digit in all, and an optional exponent: every such
/// text is accepted, and nothing else is.
pub proof fn lemma_decimal_float_shape(s: Seq<char>)
    ensures
        is_decimal_float(s) <==> exists|
            whole: Seq<char>,
            point: bool,
            fraction: Seq<char>,
            exponent: Seq<char>,
        |
            #[trigger] decimal_text(whole, point, fraction, exponent) == s && are_decimal_parts(
                whole,
                point,
                fraction,
                exponent,
            ),
{
    if is_decimal_float(s) {
        lemma_digits_end_bounds(s, 0);
        let whole_end = digits_end(s, 0);
        let point = whole_end < s.len() && s[whole_end] == '.';
        let fraction_start = if point {
            whole_end + 1
        } else {
            whole_end
        };
        lemma_digits_end_bounds(s, fraction_start);
        let fraction_end = digits_end(s, fraction_start);
        let whole = s.take(whole_end);
        let fraction = s.subrange(fraction_start, fraction_end);
        let exponent = s.skip(fraction_end);
        assert(decimal_text(whole, point, fraction, exponent) =~= s);
        assert(all_digits(whole));
        assert(all_digits(fraction));
        assert(are_decimal_parts(whole, point, fraction, exponent));
    }
    if exists|whole: Seq<char>, point: bool, fraction: Seq<char>, exponent: Seq<char>|
        #[trigger] decimal_text(whole, point, fraction, exponent) == s && are_decimal_parts(
            whole,
            point,
            fraction,
            exponent,
        ) {
        let (whole, point, fraction, exponent) = choose|
            whole: Seq<char>,
            point: bool,
            fraction: Seq<char>,
            exponent: Seq<char>,
        |
            #[trigger] decimal_text(whole, point, fraction, exponent) == s && are_decimal_parts(
                whole,
                point,
                fraction,
                exponent,
            );
        lemma_decimal_parts_accepted(whole, point, fraction, exponent);
    }
}

} // verus!
