//! Text helpers: decimal numerals, case mapping, trimming, character classes
//! and the e-mail address pattern.
use vstd::prelude::*;

verus! {

/// The decimal digit characters, by value.
pub open spec fn digit_char(d: int) -> char {
    seq!['0', '1', '2', '3', '4', '5', '6', '7', '8', '9'][d]
}

/// Decimal text of a natural number, without leading zeros.
pub open spec fn decimal(n: nat) -> Seq<char>
    decreases n,
{
    if n < 10 {
        seq![digit_char(n as int)]
    } else {
        decimal(n / 10) + seq![digit_char((n % 10) as int)]
    }
}

/// Upper-cased form of a text, by Rust's Unicode case mapping.
pub uninterp spec fn upper_of(s: Seq<char>) -> Seq<char>;

/// Lower-cased form of a text, by Rust's Unicode case mapping.
pub uninterp spec fn lower_of(s: Seq<char>) -> Seq<char>;

/// A text without its leading and trailing Unicode white space.
pub uninterp spec fn trimmed(s: Seq<char>) -> Seq<char>;

/// A text with every occurrence of `from` replaced by `to`, scanning from
/// the left without overlaps.
pub uninterp spec fn replaced(s: Seq<char>, from: Seq<char>, to: Seq<char>) -> Seq<char>;

/// Relies on `str::replace`, whose result depends on the three texts alone.
#[verifier::external_body]
pub fn replace_all(s: &str, from: &str, to: &str) -> (r: String)
    ensures
        r@ == replaced(s@, from@, to@),
{
    s.replace(from, to)
}

/// Decimal text of an integer, with a leading minus sign when negative.
pub open spec fn signed_decimal(n: int) -> Seq<char> {
    if n < 0 {
        "-"@ + decimal((-n) as nat)
    } else {
        decimal(n as nat)
    }
}

/// Relies on `str::to_uppercase`, whose result depends on the text alone and
/// is empty for an empty text.
#[verifier::external_body]
pub fn uppercase(s: &str) -> (r: String)
    ensures
        r@ == upper_of(s@),
        s@.len() == 0 ==> r@.len() == 0,
{
    s.to_uppercase()
}

/// Relies on `str::to_lowercase`, whose result depends on the text alone and
/// is empty for an empty text.
#[verifier::external_body]
pub fn lowercase(s: &str) -> (r: String)
    ensures
        r@ == lower_of(s@),
        s@.len() == 0 ==> r@.len() == 0,
{
    s.to_lowercase()
}

/// Relies on `str::trim`, which removes leading and trailing white space:
/// the result is a part of the text, and an empty text stays empty.
#[verifier::external_body]
pub fn trim(s: &str) -> (r: &str)
    ensures
        r@ == trimmed(s@),
        r@.len() <= s@.len(),
{
    s.trim()
}

pub open spec fn is_ascii_alpha(c: char) -> bool {
    ('a' as u32 <= c as u32 <= 'z' as u32) || ('A' as u32 <= c as u32 <= 'Z' as u32)
}

pub open spec fn is_ascii_digit(c: char) -> bool {
    '0' as u32 <= c as u32 <= '9' as u32
}

pub open spec fn is_ascii_alnum(c: char) -> bool {
    is_ascii_alpha(c) || is_ascii_digit(c)
}

pub fn ascii_alpha(c: char) -> (r: bool)
    ensures
        r == is_ascii_alpha(c),
{
    let u = c as u32;
    ('a' as u32 <= u && u <= 'z' as u32) || ('A' as u32 <= u && u <= 'Z' as u32)
}

pub fn ascii_alnum(c: char) -> (r: bool)
    ensures
        r == is_ascii_alnum(c),
{
    let u = c as u32;
    ascii_alpha(c) || ('0' as u32 <= u && u <= '9' as u32)
}

pub open spec fn email_local_char(c: char) -> bool {
    is_ascii_alnum(c) || c == '.' || c == '_' || c == '%' || c == '+' || c == '-'
}

pub open spec fn email_domain_char(c: char) -> bool {
    is_ascii_alnum(c) || c == '.' || c == '-'
}

/// A local part, an `@`, a domain, a dot and an alphabetic top-level label of
/// at least two letters, as the pattern
/// `^[a-zA-Z0-9._%+-]+@[a-zA-Z0-9.-]+\.[a-zA-Z]{2,}$` describes.
pub open spec fn email_shape(s: Seq<char>) -> bool {
    exists|at: int, dot: int|
        #![trigger s[at], s[dot]]
        0 < at && at + 1 < dot && dot + 2 < s.len() && s[at] == '@' && s[dot] == '.' && (forall|
            i: int,
        | 0 <= i < at ==> email_local_char(#[trigger] s[i])) && (forall|i: int|
            at < i < dot ==> email_domain_char(#[trigger] s[i])) && (forall|i: int|
            dot < i < s.len() ==> is_ascii_alpha(#[trigger] s[i]))
}

/// Relies on the regex crate's `Regex::new` and `Regex::is_match`: the
/// anchored pattern matches exactly the texts of `email_shape`.
#[verifier::external_body]
pub fn matches_email_pattern(s: &str) -> (r: bool)
    ensures
        r == email_shape(s@),
{
    match regex::Regex::new(r"^[a-zA-Z0-9._%+-]+@[a-zA-Z0-9.-]+\.[a-zA-Z]{2,}$") {
        Ok(re) => re.is_match(s),
        Err(_) => false,
    }
}

} // verus!
