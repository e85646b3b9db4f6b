//! What the library takes from outside: identifiers, the time, chance, and
//! words of a shell.

use vstd::prelude::*;

verus! {

/// A lower-case hexadecimal digit.
pub open spec fn is_hex_digit(c: char) -> bool {
    ('0' <= c && c <= '9') || ('a' <= c && c <= 'f')
}

/// The text of a random identifier of version 4: groups of eight, four, four,
/// four and twelve hexadecimal digits with hyphens between them, of which one
/// names the version and one the variant.
pub open spec fn is_random_id(s: Seq<char>) -> bool {
    &&& s.len() == 36
    &&& forall|i: int|
        0 <= i < 36 ==> if i == 8 || i == 13 || i == 18 || i == 23 {
            #[trigger] s[i] == '-'
        } else {
            is_hex_digit(s[i])
        }
    &&& s[14] == '4'
    &&& (s[19] == '8' || s[19] == '9' || s[19] == 'a' || s[19] == 'b')
}

/// The text of a moment in UTC: a date, `T`, a time of day to the second, perhaps
/// a fraction of one to nine digits, and `Z`.
pub open spec fn is_utc_moment(s: Seq<char>) -> bool {
    &&& s.len() == 20 || 22 <= s.len() <= 30
    &&& forall|i: int|
        0 <= i < s.len() - 1 ==> if i == 4 || i == 7 {
            #[trigger] s[i] == '-'
        } else if i == 10 {
            s[i] == 'T'
        } else if i == 13 || i == 16 {
            s[i] == ':'
        } else if i == 19 {
            s[i] == '.'
        } else {
            '0' <= s[i] && s[i] <= '9'
        }
    &&& s.last() == 'Z'
}

/// `Uuid::new_v4` draws 122 random bits, and `to_string` writes them with
/// hyphens and in lower case. Which bits come is left unsaid: they are random.
#[verifier::external_body]
pub(crate) fn random_id() -> (r: String)
    ensures
        is_random_id(r@),
{
    uuid::Uuid::new_v4().to_string()
}

/// `OffsetDateTime::now_utc` reads the clock and `format` writes the moment as
/// RFC 3339 has it, with `Z` for UTC; it fails for a year of more than four
/// digits or before the year nought. Which moment it is depends on the clock and
/// is left unsaid.
#[verifier::external_body]
fn clock_text() -> (r: Option<String>)
    ensures
        r matches Some(s) ==> is_utc_moment(s@),
{
    time::OffsetDateTime::now_utc().format(&time::format_description::well_known::Rfc3339).ok()
}

/// `Rng::random_range` on the thread's generator gives a number in the range,
/// which must not be empty. Which one is chance.
#[verifier::external_body]
pub(crate) fn random_below(n: usize) -> (r: usize)
    requires
        n > 0,
    ensures
        r < n,
{
    rand::Rng::random_range(&mut rand::rng(), 0..n)
}

/// What `shlex::try_join` makes of a row of words: one line that a POSIX shell
/// splits into them again, or nothing where a word holds a NUL character.
pub uninterp spec fn shell_line(words: Seq<Seq<char>>) -> Option<Seq<char>>;

/// Whether one of the words holds a NUL character.
pub open spec fn holds_nul(words: Seq<Seq<char>>) -> bool {
    exists|i: int| 0 <= i < words.len() && (#[trigger] words[i]).contains('\0')
}

/// `shlex::try_join` quotes each word as needed and puts spaces between them.
/// The one error is a NUL character in a word. How a word is quoted is left to
/// `shell_line`.
#[verifier::external_body]
pub(crate) fn shell_join(words: &Vec<String>) -> (r: Option<String>)
    ensures
        r.deep_view() == shell_line(crate::text::views(words@)),
        (r is None) == holds_nul(crate::text::views(words@)),
{
    shlex::try_join(words.iter().map(|word| word.as_str())).ok()
}

/// What `str::to_lowercase` makes of a text, after the tables of Unicode.
pub uninterp spec fn lower_case(s: Seq<char>) -> Seq<char>;

/// `str::to_lowercase` gives the text in lower case.
pub assume_specification[ str::to_lowercase ](s: &str) -> (r: String)
    ensures
        r@ == lower_case(s@),
;

/// Whether `char::is_alphanumeric` holds of a character, after the tables of
/// Unicode.
pub uninterp spec fn is_letter_or_number(c: char) -> bool;

/// `char::is_alphanumeric` tells letters and numbers from other characters.
pub assume_specification[ char::is_alphanumeric ](c: char) -> (r: bool)
    ensures
        r == is_letter_or_number(c),
;

/// The time now, or the start of 1970 where the clock cannot be written.
pub fn now_timestamp() -> (r: String)
    ensures
        is_utc_moment(r@),
{
    match clock_text() {
        Some(s) => s,
        None => {
            proof {
                reveal_strlit("1970-01-01T00:00:00Z");
            }
            "1970-01-01T00:00:00Z".to_owned()
        },
    }
}

} // verus!
