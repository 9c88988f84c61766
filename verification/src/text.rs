//! Reading characters: blanks, words, names, quoted strings and numbers.
//!
//! Each function on `&str` comes with a function on `Seq<char>` that says what
//! it returns.

use vstd::prelude::*;
use vstd::std_specs::iter::IteratorSpec;
use vstd::string::StrSliceExecFns;

verus! {

/// Blanks inside a line: space, tab and carriage return.
pub open spec fn is_space(c: char) -> bool {
    c == ' ' || c == '\t' || c == '\r'
}

pub open spec fn is_digit(c: char) -> bool {
    '0' <= c && c <= '9'
}

/// The characters of a name: ASCII letters, digits and the underscore.
pub open spec fn is_name_char(c: char) -> bool {
    is_digit(c) || ('a' <= c && c <= 'z') || ('A' <= c && c <= 'Z') || c == '_'
}

/// The index of the first character at or after `at` that is no blank; the
/// length of `s` where there is none.
pub open spec fn spaces_end(s: Seq<char>, at: int) -> int
    decreases s.len() - at,
{
    if 0 <= at < s.len() && is_space(s[at]) {
        spaces_end(s, at + 1)
    } else {
        at
    }
}

/// The index of the first blank at or after `at`; the length of `s` where
/// there is none.
pub open spec fn word_end(s: Seq<char>, at: int) -> int
    decreases s.len() - at,
{
    if 0 <= at < s.len() && !is_space(s[at]) {
        word_end(s, at + 1)
    } else {
        at
    }
}

/// The index behind the last character before `end` that is no blank; 0 where
/// there is none.
pub open spec fn spaces_start(s: Seq<char>, end: int) -> int
    decreases end,
{
    if 0 < end <= s.len() && is_space(s[end - 1]) {
        spaces_start(s, end - 1)
    } else {
        end
    }
}

/// `s` without the blanks at its start.
pub open spec fn left_trimmed(s: Seq<char>) -> Seq<char> {
    s.skip(spaces_end(s, 0))
}

/// `s` without the blanks at its start and at its end.
pub open spec fn trimmed(s: Seq<char>) -> Seq<char> {
    let from = spaces_end(s, 0);
    let to = spaces_start(s, s.len() as int);
    if from < to {
        s.subrange(from, to)
    } else {
        Seq::empty()
    }
}

/// The characters of `s` up to its first blank.
pub open spec fn first_word(s: Seq<char>) -> Seq<char> {
    s.take(word_end(s, 0))
}

/// What follows the first word of `s` and the blanks behind it.
pub open spec fn after_first_word(s: Seq<char>) -> Seq<char> {
    s.skip(spaces_end(s, word_end(s, 0)))
}

/// The index of the first `c` at or after `at`; the length of `s` where there
/// is none.
pub open spec fn position_of(s: Seq<char>, c: char, at: int) -> int
    decreases s.len() - at,
{
    if 0 <= at < s.len() && s[at] != c {
        position_of(s, c, at + 1)
    } else {
        at
    }
}

/// A name is one or more name characters.
pub open spec fn is_name_text(s: Seq<char>) -> bool {
    s.len() > 0 && forall|i: int| 0 <= i < s.len() ==> is_name_char(#[trigger] s[i])
}

/// A string between double quotes stands for what is between them; any other
/// string stands for itself.
pub open spec fn unquoted(s: Seq<char>) -> Seq<char> {
    if s.len() >= 2 && s[0] == '"' && s.last() == '"' {
        s.subrange(1, s.len() - 1)
    } else {
        s
    }
}

/// The number that a digit stands for.
pub open spec fn digit_value(c: char) -> nat {
    if is_digit(c) {
        ((c as u32) - ('0' as u32)) as nat
    } else {
        0
    }
}

/// The number that a string of digits stands for, read in base ten.
pub open spec fn digits_value(s: Seq<char>) -> nat
    decreases s.len(),
{
    if s.len() == 0 {
        0
    } else {
        digits_value(s.drop_last()) * 10 + digit_value(s.last())
    }
}

pub open spec fn all_digits(s: Seq<char>) -> bool {
    forall|i: int| 0 <= i < s.len() ==> is_digit(#[trigger] s[i])
}

/// `s` without the `+` or `-` that it may begin with.
pub open spec fn unsigned_part(s: Seq<char>) -> Seq<char> {
    if s.len() > 0 && (s[0] == '-' || s[0] == '+') {
        s.drop_first()
    } else {
        s
    }
}

/// The 32-bit integer that `s` stands for: an optional `+` or `-` and one or
/// more digits, whose value is in range. Anything else stands for none.
pub open spec fn int_of(s: Seq<char>) -> Option<i32> {
    let digits = unsigned_part(s);
    if digits.len() == 0 || !all_digits(digits) {
        None
    } else {
        let size = digits_value(digits) as int;
        let value = if s[0] == '-' {
            -size
        } else {
            size
        };
        if i32::MIN <= value <= i32::MAX {
            Some(value as i32)
        } else {
            None
        }
    }
}

/// The boolean that `s` stands for: `true` or `false`, and nothing else.
pub open spec fn bool_of(s: Seq<char>) -> Option<bool> {
    if s == "true"@ {
        Some(true)
    } else if s == "false"@ {
        Some(false)
    } else {
        None
    }
}

proof fn lemma_digits_grow(s: Seq<char>, k: int)
    requires
        0 <= k <= s.len(),
    ensures
        digits_value(s.take(k)) <= digits_value(s),
    decreases s.len() - k,
{
    if k < s.len() {
        lemma_digits_grow(s, k + 1);
        assert(s.take(k + 1).drop_last() =~= s.take(k));
        assert(digits_value(s.take(k + 1)) >= digits_value(s.take(k))) by (nonlinear_arith)
            requires
                digits_value(s.take(k + 1)) == digits_value(s.take(k)) * 10 + digit_value(
                    s.take(k + 1).last(),
                ),
        ;
    } else {
        assert(s.take(k) =~= s);
    }
}

/// The characters of a string.
pub fn chars_of(s: &str) -> (r: Vec<char>)
    ensures
        r@ == s@,
{
    broadcast use vstd::string::group_string_axioms;

    let mut out: Vec<char> = Vec::new();
    let mut it = s.chars();
    loop
        invariant
            out@ + it.remaining() == s@,
            it.decrease() is Some,
        ensures
            out@ == s@,
        decreases it.decrease()->0,
    {
        match it.next() {
            Some(c) => {
                out.push(c);
            },
            None => {
                break ;
            },
        }
    }
    out
}

pub(crate) fn space(c: char) -> (r: bool)
    ensures
        r == is_space(c),
{
    c == ' ' || c == '\t' || c == '\r'
}

pub(crate) fn name_char(c: char) -> (r: bool)
    ensures
        r == is_name_char(c),
{
    (c >= '0' && c <= '9') || (c >= 'a' && c <= 'z') || (c >= 'A' && c <= 'Z') || c == '_'
}

/// Steps over the blanks from `at` on.
pub(crate) fn skip_spaces(text: &Vec<char>, at: usize) -> (r: usize)
    requires
        at <= text.len(),
    ensures
        r == spaces_end(text@, at as int),
        at <= r <= text.len(),
{
    let mut i: usize = at;
    while i < text.len() && space(text[i])
        invariant
            at <= i <= text.len(),
            spaces_end(text@, at as int) == spaces_end(text@, i as int),
        decreases text.len() - i,
    {
        i += 1;
    }
    i
}

/// Steps over the characters from `at` on that are no blanks.
pub(crate) fn skip_word(text: &Vec<char>, at: usize) -> (r: usize)
    requires
        at <= text.len(),
    ensures
        r == word_end(text@, at as int),
        at <= r <= text.len(),
{
    let mut i: usize = at;
    while i < text.len() && !space(text[i])
        invariant
            at <= i <= text.len(),
            word_end(text@, at as int) == word_end(text@, i as int),
        decreases text.len() - i,
    {
        i += 1;
    }
    i
}

/// Steps back over the blanks before `end`.
pub(crate) fn skip_spaces_back(text: &Vec<char>, end: usize) -> (r: usize)
    requires
        end <= text.len(),
    ensures
        r == spaces_start(text@, end as int),
        r <= end,
{
    let mut i: usize = end;
    while i > 0 && space(text[i - 1])
        invariant
            i <= end <= text.len(),
            spaces_start(text@, end as int) == spaces_start(text@, i as int),
        decreases i,
    {
        i -= 1;
    }
    i
}

/// Steps to the first `c` from `at` on.
pub(crate) fn find(text: &Vec<char>, c: char, at: usize) -> (r: usize)
    requires
        at <= text.len(),
    ensures
        r == position_of(text@, c, at as int),
        at <= r <= text.len(),
{
    let mut i: usize = at;
    while i < text.len() && text[i] != c
        invariant
            at <= i <= text.len(),
            position_of(text@, c, at as int) == position_of(text@, c, i as int),
        decreases text.len() - i,
    {
        i += 1;
    }
    i
}

/// The text without the blanks at its start and at its end.
pub fn trim<'a>(text: &'a str) -> (r: &'a str)
    ensures
        r@ == trimmed(text@),
{
    let chars = chars_of(text);
    let from = skip_spaces(&chars, 0);
    let to = skip_spaces_back(&chars, chars.len());
    if from < to {
        text.substring_char(from, to)
    } else {
        text.substring_char(0, 0)
    }
}

/// The text without the blanks at its start.
pub fn left_trim<'a>(text: &'a str) -> (r: &'a str)
    ensures
        r@ == left_trimmed(text@),
{
    let chars = chars_of(text);
    let from = skip_spaces(&chars, 0);
    text.substring_char(from, chars.len())
}

/// The first word of the text, and what follows it and the blanks behind it.
pub fn split_word<'a>(text: &'a str) -> (r: (&'a str, &'a str))
    ensures
        r.0@ == first_word(text@),
        r.1@ == after_first_word(text@),
{
    let chars = chars_of(text);
    let end = skip_word(&chars, 0);
    let next = skip_spaces(&chars, end);
    (text.substring_char(0, end), text.substring_char(next, chars.len()))
}

/// The text from its `n`th character on.
pub(crate) fn skip_chars<'a>(text: &'a str, n: usize) -> (r: &'a str)
    requires
        n <= text@.len(),
    ensures
        r@ == text@.skip(n as int),
{
    let len = text.unicode_len();
    text.substring_char(n, len)
}

/// Whether two texts hold the same characters.
pub fn same_text(a: &str, b: &str) -> (r: bool)
    ensures
        r == (a@ == b@),
{
    let left = chars_of(a);
    let right = chars_of(b);
    if left.len() != right.len() {
        return false;
    }
    let mut i: usize = 0;
    while i < left.len()
        invariant
            i <= left.len(),
            left.len() == right.len(),
            left@ == a@,
            right@ == b@,
            forall|k: int| 0 <= k < i ==> left@[k] == right@[k],
        decreases left.len() - i,
    {
        if left[i] != right[i] {
            return false;
        }
        i += 1;
    }
    assert(left@ =~= right@);
    true
}

/// Whether the text begins with the word.
pub fn starts_with(text: &str, word: &str) -> (r: bool)
    ensures
        r == word@.is_prefix_of(text@),
{
    let whole = chars_of(text);
    let start = chars_of(word);
    if start.len() > whole.len() {
        return false;
    }
    let mut i: usize = 0;
    while i < start.len()
        invariant
            i <= start.len() <= whole.len(),
            whole@ == text@,
            start@ == word@,
            forall|k: int| 0 <= k < i ==> start@[k] == whole@[k],
        decreases start.len() - i,
    {
        if start[i] != whole[i] {
            return false;
        }
        i += 1;
    }
    true
}

/// Whether the text is a name.
pub fn is_name(text: &str) -> (r: bool)
    ensures
        r == is_name_text(text@),
{
    let chars = chars_of(text);
    if chars.len() == 0 {
        return false;
    }
    let mut i: usize = 0;
    while i < chars.len()
        invariant
            i <= chars.len(),
            chars@ == text@,
            forall|k: int| 0 <= k < i ==> is_name_char(#[trigger] chars@[k]),
        decreases chars.len() - i,
    {
        if !name_char(chars[i]) {
            return false;
        }
        i += 1;
    }
    true
}

/// What a possibly quoted text stands for.
pub fn unquote<'a>(text: &'a str) -> (r: &'a str)
    ensures
        r@ == unquoted(text@),
{
    let chars = chars_of(text);
    let len = chars.len();
    if len >= 2 && chars[0] == '"' && chars[len - 1] == '"' {
        text.substring_char(1, len - 1)
    } else {
        text
    }
}

/// Reads a 32-bit integer in base ten, with or without a sign.
pub fn parse_int(text: &str) -> (r: Option<i32>)
    ensures
        r == int_of(text@),
{
    let chars = chars_of(text);
    let len = chars.len();
    if len == 0 {
        return None;
    }
    let negative = chars[0] == '-';
    let start: usize = if chars[0] == '-' || chars[0] == '+' {
        1
    } else {
        0
    };
    let ghost digits = unsigned_part(text@);
    assert(digits =~= chars@.skip(start as int));
    if start == len {
        return None;
    }
    let mut size: i64 = 0;
    let mut i: usize = start;
    while i < len
        invariant
            start <= i <= len,
            len == chars.len(),
            digits == unsigned_part(text@),
            digits == chars@.skip(start as int),
            forall|k: int| 0 <= k < i - start ==> is_digit(#[trigger] digits[k]),
            size == digits_value(digits.take(i - start)),
            0 <= size <= 2147483648,
        decreases len - i,
    {
        let c = chars[i];
        if !(c >= '0' && c <= '9') {
            assert(!is_digit(digits[i - start]));
            return None;
        }
        let digit: i64 = ((c as u32) - ('0' as u32)) as i64;
        proof {
            assert(digits.take(i - start + 1).drop_last() =~= digits.take(i - start));
            lemma_digits_grow(digits, i - start + 1);
        }
        size = size * 10 + digit;
        if size > 2147483648 {
            return None;
        }
        i += 1;
    }
    assert(digits.take(len - start) =~= digits);
    if negative {
        Some((-size) as i32)
    } else if size > 2147483647 {
        None
    } else {
        Some(size as i32)
    }
}

/// Reads `true` or `false`.
pub fn parse_bool(text: &str) -> (r: Option<bool>)
    ensures
        r == bool_of(text@),
{
    if same_text(text, "true") {
        Some(true)
    } else if same_text(text, "false") {
        Some(false)
    } else {
        None
    }
}

} // verus!
