//! Text as sequences of characters: trimming, splitting, joining and comparing.

use vstd::prelude::*;

verus! {

// ---------------------------------------------------------------------------
// Specifications
// ---------------------------------------------------------------------------

/// The characters with the Unicode property `White_Space`.
pub open spec fn is_space(c: char) -> bool {
    ||| 0x9 <= c as u32 <= 0xD
    ||| c as u32 == 0x20
    ||| c as u32 == 0x85
    ||| c as u32 == 0xA0
    ||| c as u32 == 0x1680
    ||| 0x2000 <= c as u32 <= 0x200A
    ||| c as u32 == 0x2028
    ||| c as u32 == 0x2029
    ||| c as u32 == 0x202F
    ||| c as u32 == 0x205F
    ||| c as u32 == 0x3000
}

/// `s` without its leading white space.
pub open spec fn trimmed_start(s: Seq<char>) -> Seq<char>
    decreases s.len(),
{
    if s.len() > 0 && is_space(s[0]) {
        trimmed_start(s.subrange(1, s.len() as int))
    } else {
        s
    }
}

/// `s` without its trailing white space.
pub open spec fn trimmed_end(s: Seq<char>) -> Seq<char>
    decreases s.len(),
{
    if s.len() > 0 && is_space(s.last()) {
        trimmed_end(s.drop_last())
    } else {
        s
    }
}

/// `s` without white space at either end.
pub open spec fn trimmed(s: Seq<char>) -> Seq<char> {
    trimmed_end(trimmed_start(s))
}

/// Whether `s` holds nothing but white space.
pub open spec fn is_blank(s: Seq<char>) -> bool {
    trimmed(s).len() == 0
}

/// The trimmed text, where there is one and it is not blank.
pub open spec fn present(s: Option<Seq<char>>) -> Option<Seq<char>> {
    match s {
        Some(s) => if is_blank(s) { None } else { Some(trimmed(s)) },
        None => None,
    }
}

/// What a text is cut at.
#[derive(Clone, Copy)]
pub enum Cut {
    Space,
    At(char),
}

impl Cut {
    pub open spec fn cuts(self, c: char) -> bool {
        match self {
            Cut::Space => is_space(c),
            Cut::At(d) => c == d,
        }
    }
}

/// The pieces of `s` between the characters that `cut` names: always one more
/// than there are such characters.
pub open spec fn pieces(s: Seq<char>, cut: Cut) -> Seq<Seq<char>>
    decreases s.len(),
{
    if s.len() == 0 {
        seq![Seq::<char>::empty()]
    } else {
        let before = pieces(s.drop_last(), cut);
        if cut.cuts(s.last()) {
            before.push(Seq::<char>::empty())
        } else {
            before.drop_last().push(before.last().push(s.last()))
        }
    }
}

/// The texts among `parts` that are not empty.
pub open spec fn filled(parts: Seq<Seq<char>>) -> Seq<Seq<char>>
    decreases parts.len(),
{
    if parts.len() == 0 {
        seq![]
    } else if parts.last().len() == 0 {
        filled(parts.drop_last())
    } else {
        filled(parts.drop_last()).push(parts.last())
    }
}

/// The words of `s`: what stands between white space.
pub open spec fn words(s: Seq<char>) -> Seq<Seq<char>> {
    filled(pieces(s, Cut::Space))
}

/// `line` without one carriage return at its end.
pub open spec fn without_return(line: Seq<char>) -> Seq<char> {
    if line.len() > 0 && line.last() == '\r' {
        line.drop_last()
    } else {
        line
    }
}

/// The lines of `s`. A line ends at a line feed, with or without a carriage
/// return before it; the last line needs no ending.
pub open spec fn lines(s: Seq<char>) -> Seq<Seq<char>> {
    let parts = pieces(s, Cut::At('\n'));
    let closed_lines = Seq::new(
        (parts.len() - 1) as nat,
        |i: int| without_return(parts[i]),
    );
    if parts.last().len() == 0 {
        closed_lines
    } else {
        closed_lines.push(parts.last())
    }
}

/// The texts in `parts` with `sep` between each two of them.
pub open spec fn joined(parts: Seq<Seq<char>>, sep: Seq<char>) -> Seq<char>
    decreases parts.len(),
{
    if parts.len() == 0 {
        seq![]
    } else if parts.len() == 1 {
        parts[0]
    } else {
        joined(parts.drop_last(), sep) + sep + parts.last()
    }
}

/// The place of the first `c` in `s`, or the length of `s`.
pub open spec fn first_index(s: Seq<char>, c: char) -> int
    decreases s.len(),
{
    if s.len() == 0 {
        0
    } else if s[0] == c {
        0
    } else {
        1 + first_index(s.subrange(1, s.len() as int), c)
    }
}

/// What stands before and after the first `c` in `s`.
pub open spec fn split_at_first(s: Seq<char>, c: char) -> Option<(Seq<char>, Seq<char>)> {
    let i = first_index(s, c);
    if i < s.len() {
        Some((s.take(i), s.skip(i + 1)))
    } else {
        None
    }
}

/// What follows `prefix` in `s`.
pub open spec fn after_prefix(s: Seq<char>, prefix: Seq<char>) -> Option<Seq<char>> {
    if prefix.is_prefix_of(s) {
        Some(s.skip(prefix.len() as int))
    } else {
        None
    }
}

/// Whether `part` stands somewhere in `s`.
pub open spec fn holds(s: Seq<char>, part: Seq<char>) -> bool {
    exists|i: int| 0 <= i && #[trigger] holds_at(s, part, i)
}

/// Whether `part` stands in `s` at `i`.
pub open spec fn holds_at(s: Seq<char>, part: Seq<char>, i: int) -> bool {
    i + part.len() <= s.len() && s.subrange(i, i + part.len()) == part
}

/// The lower-case letter for an ASCII capital; any other character as it is.
pub open spec fn ascii_lower_char(c: char) -> char {
    if 'A' <= c && c <= 'Z' {
        ((c as u32 + 32) as u32) as char
    } else {
        c
    }
}

/// `s` with its ASCII capitals in lower case.
pub open spec fn ascii_lower(s: Seq<char>) -> Seq<char> {
    Seq::new(s.len(), |i: int| ascii_lower_char(s[i]))
}

/// The digit for a number below ten.
pub open spec fn digit(n: nat) -> char {
    ((0x30 + n) as u32) as char
}

/// `n` in decimal.
pub open spec fn decimal(n: nat) -> Seq<char>
    decreases n,
{
    if n < 10 {
        seq![digit(n)]
    } else {
        decimal(n / 10).push(digit(n % 10))
    }
}

pub open spec fn is_digit(c: char) -> bool {
    '0' <= c && c <= '9'
}

/// The number that a row of digits writes in decimal.
pub open spec fn digits_value(s: Seq<char>) -> nat
    decreases s.len(),
{
    if s.len() == 0 {
        0
    } else {
        digits_value(s.drop_last()) * 10 + (s.last() as u32 - 0x30) as nat
    }
}

/// Whether `s` is a row of digits.
pub open spec fn all_digits(s: Seq<char>) -> bool {
    forall|i: int| 0 <= i < s.len() ==> is_digit(#[trigger] s[i])
}

/// The number that a row of at least one digit writes, if it stays within 64
/// bits.
pub open spec fn plain_number(digits: Seq<char>) -> Option<u64> {
    if digits.len() > 0 && all_digits(digits) && digits_value(digits) <= u64::MAX {
        Some(digits_value(digits) as u64)
    } else {
        None
    }
}

/// The number that `s` writes: digits, with at most one plus sign before them.
pub open spec fn number(s: Seq<char>) -> Option<u64> {
    if s.len() > 1 && s[0] == '+' {
        plain_number(s.skip(1))
    } else {
        plain_number(s)
    }
}

// ---------------------------------------------------------------------------
// Trusted: parts of std
// ---------------------------------------------------------------------------

/// `String::push` adds one character at the end.
pub assume_specification[ String::push ](s: &mut String, c: char)
    ensures
        final(s)@ == old(s)@.push(c),
;

/// `str`'s `eq` tells whether two texts hold the same characters.
pub assume_specification[ <str as PartialEq>::eq ](a: &str, b: &str) -> (same: bool)
    ensures
        same == (a@ == b@),
;

// ---------------------------------------------------------------------------
// Basics
// ---------------------------------------------------------------------------

/// Whether two texts are equal.
pub fn same(a: &str, b: &str) -> (r: bool)
    ensures
        r == (a@ == b@),
{
    <str as PartialEq>::eq(a, b)
}

/// Whether two optional texts are equal.
pub fn same_option(a: &Option<String>, b: &Option<String>) -> (r: bool)
    ensures
        r == (a.deep_view() == b.deep_view()),
{
    match (a, b) {
        (Some(a), Some(b)) => same(a.as_str(), b.as_str()),
        (None, None) => true,
        _ => false,
    }
}

/// The characters of `s`.
pub fn chars_of(s: &str) -> (r: Vec<char>)
    ensures
        r@ == s@,
{
    let mut r: Vec<char> = Vec::new();
    for c in it: s.chars()
        invariant
            it.seq() == s@,
            r@ == s@.take(it.index() as int),
    {
        proof {
            assert(s@.take(it.index() + 1) =~= s@.take(it.index() as int).push(c));
        }
        r.push(c);
    }
    proof {
        assert(s@.take(s@.len() as int) =~= s@);
    }
    r
}

/// The text from `from` up to `to`.
pub fn text_between(chars: &Vec<char>, from: usize, to: usize) -> (r: String)
    requires
        from <= to <= chars@.len(),
    ensures
        r@ == chars@.subrange(from as int, to as int),
{
    let mut r = String::new();
    let mut i: usize = from;
    while i < to
        invariant
            from <= i <= to <= chars@.len(),
            r@ == chars@.subrange(from as int, i as int),
        decreases to - i,
    {
        r.push(chars[i]);
        i = i + 1;
        proof {
            assert(chars@.subrange(from as int, i as int) =~= chars@.subrange(
                from as int,
                i - 1,
            ).push(chars@[i - 1]));
        }
    }
    r
}

/// A copy of `a` with `b` behind it.
pub fn concat2(a: &str, b: &str) -> (r: String)
    ensures
        r@ == a@ + b@,
{
    let mut r = a.to_owned();
    r.append(b);
    r
}

/// `a`, `b` and `c` in a row.
pub fn concat3(a: &str, b: &str, c: &str) -> (r: String)
    ensures
        r@ == a@ + b@ + c@,
{
    let mut r = a.to_owned();
    r.append(b);
    r.append(c);
    r
}

/// An optional text, copied.
pub fn copy_option(s: &Option<String>) -> (r: Option<String>)
    ensures
        r == *s,
{
    match s {
        Some(s) => Some(s.clone()),
        None => None,
    }
}

/// A list of texts, copied.
pub fn copy_list(list: &Vec<String>) -> (r: Vec<String>)
    ensures
        r@ == list@,
{
    let mut r: Vec<String> = Vec::new();
    for i in 0..list.len()
        invariant
            r@ == list@.take(i as int),
    {
        r.push(list[i].clone());
        proof {
            assert(list@.take(i + 1) =~= list@.take(i as int).push(list@[i as int]));
        }
    }
    proof {
        assert(list@.take(list@.len() as int) =~= list@);
    }
    r
}

// ---------------------------------------------------------------------------
// Trimming
// ---------------------------------------------------------------------------

/// Whether `c` is white space.
pub fn is_white(c: char) -> (r: bool)
    ensures
        r == is_space(c),
{
    let n: u32 = c as u32;
    (n >= 0x9 && n <= 0xD) || n == 0x20 || n == 0x85 || n == 0xA0 || n == 0x1680 || (n >= 0x2000
        && n <= 0x200A) || n == 0x2028 || n == 0x2029 || n == 0x202F || n == 0x205F || n == 0x3000
}

pub proof fn lemma_trimmed_start_at(s: Seq<char>, n: int)
    requires
        0 <= n <= s.len(),
        forall|i: int| 0 <= i < n ==> is_space(#[trigger] s[i]),
        n < s.len() ==> !is_space(s[n]),
    ensures
        trimmed_start(s) == s.skip(n),
    decreases s.len(),
{
    if n > 0 {
        let t = s.subrange(1, s.len() as int);
        assert forall|i: int| 0 <= i < n - 1 implies is_space(#[trigger] t[i]) by {
            assert(t[i] == s[i + 1]);
        }
        lemma_trimmed_start_at(t, n - 1);
        assert(t.skip(n - 1) =~= s.skip(n));
        assert(is_space(s[0]));
    } else {
        assert(s.skip(0) =~= s);
    }
}

pub proof fn lemma_trimmed_end_at(s: Seq<char>, n: int)
    requires
        0 <= n <= s.len(),
        forall|i: int| n <= i < s.len() ==> is_space(#[trigger] s[i]),
        n > 0 ==> !is_space(s[n - 1]),
    ensures
        trimmed_end(s) == s.take(n),
    decreases s.len(),
{
    if n < s.len() {
        lemma_trimmed_end_at(s.drop_last(), n);
        assert(s.drop_last().take(n) =~= s.take(n));
        assert(is_space(s.last()));
    } else {
        assert(s.take(n) =~= s);
    }
}

fn white_prefix(chars: &Vec<char>) -> (n: usize)
    ensures
        n <= chars@.len(),
        trimmed_start(chars@) == chars@.skip(n as int),
{
    let mut n: usize = 0;
    while n < chars.len() && is_white(chars[n])
        invariant
            n <= chars@.len(),
            forall|i: int| 0 <= i < n ==> is_space(#[trigger] chars@[i]),
        decreases chars@.len() - n,
    {
        n = n + 1;
    }
    proof {
        lemma_trimmed_start_at(chars@, n as int);
    }
    n
}

fn white_suffix(chars: &Vec<char>, from: usize) -> (n: usize)
    requires
        from <= chars@.len(),
    ensures
        from <= n <= chars@.len(),
        trimmed_end(chars@.skip(from as int)) == chars@.subrange(from as int, n as int),
{
    let mut n: usize = chars.len();
    while n > from && is_white(chars[n - 1])
        invariant
            from <= n <= chars@.len(),
            forall|i: int| n <= i < chars@.len() ==> is_space(#[trigger] chars@[i]),
        decreases n,
    {
        n = n - 1;
    }
    proof {
        let s = chars@.skip(from as int);
        assert forall|i: int| n - from <= i < s.len() implies is_space(#[trigger] s[i]) by {
            assert(s[i] == chars@[i + from]);
        }
        lemma_trimmed_end_at(s, n - from);
        assert(s.take(n - from) =~= chars@.subrange(from as int, n as int));
    }
    n
}

/// `s` without white space at either end.
pub fn trim(s: &str) -> (r: &str)
    ensures
        r@ == trimmed(s@),
{
    let chars = chars_of(s);
    let from: usize = white_prefix(&chars);
    let to: usize = white_suffix(&chars, from);
    s.substring_char(from, to)
}

/// `s` without its leading white space.
pub fn trim_start(s: &str) -> (r: &str)
    ensures
        r@ == trimmed_start(s@),
{
    let chars = chars_of(s);
    let from: usize = white_prefix(&chars);
    s.substring_char(from, chars.len())
}

/// `s` without its trailing white space.
pub fn trim_end(s: &str) -> (r: &str)
    ensures
        r@ == trimmed_end(s@),
{
    let chars = chars_of(s);
    let to: usize = white_suffix(&chars, 0);
    proof {
        assert(chars@.skip(0) =~= s@);
    }
    s.substring_char(0, to)
}

/// Whether `s` holds nothing but white space.
pub fn blank(s: &str) -> (r: bool)
    ensures
        r == is_blank(s@),
{
    trim(s).is_empty()
}

/// The trimmed text, where there is one and it is not blank.
pub fn trim_present(s: &Option<String>) -> (r: Option<&str>)
    ensures
        r.deep_view() == present(s.deep_view()),
{
    match s {
        Some(s) => {
            let t = trim(s.as_str());
            if t.is_empty() {
                None
            } else {
                Some(t)
            }
        },
        None => None,
    }
}

// ---------------------------------------------------------------------------
// Splitting and joining
// ---------------------------------------------------------------------------

/// The views of a list of texts.
pub open spec fn views(list: Seq<String>) -> Seq<Seq<char>> {
    Seq::new(list.len(), |i: int| list[i]@)
}

/// Whether `cut` cuts at `c`.
fn cuts_at(cut: Cut, c: char) -> (r: bool)
    ensures
        r == cut.cuts(c),
{
    match cut {
        Cut::Space => is_white(c),
        Cut::At(d) => c == d,
    }
}

pub proof fn lemma_pieces_not_empty(s: Seq<char>, cut: Cut)
    ensures
        pieces(s, cut).len() > 0,
    decreases s.len(),
{
    if s.len() > 0 {
        lemma_pieces_not_empty(s.drop_last(), cut);
    }
}

/// The pieces of `s` between the characters that `cut` names.
pub fn split(s: &str, cut: Cut) -> (r: Vec<String>)
    ensures
        views(r@) == pieces(s@, cut),
{
    let chars = chars_of(s);
    let mut done: Vec<String> = Vec::new();
    let mut open = String::new();
    let mut i: usize = 0;
    proof {
        assert(views(done@).push(open@) =~= pieces(s@.take(0), cut));
    }
    while i < chars.len()
        invariant
            chars@ == s@,
            i <= chars@.len(),
            views(done@).push(open@) == pieces(s@.take(i as int), cut),
        decreases chars@.len() - i,
    {
        let c = chars[i];
        let ghost done0 = done@;
        let ghost open0 = open@;
        proof {
            assert(s@.take(i + 1).drop_last() =~= s@.take(i as int));
            assert(s@.take(i + 1).last() == c);
            assert(views(done0).push(open0).drop_last() =~= views(done0));
        }
        if cuts_at(cut, c) {
            done.push(open);
            open = String::new();
            proof {
                assert(views(done@) =~= views(done0).push(open0));
                assert(open@ =~= Seq::<char>::empty());
            }
        } else {
            open.push(c);
        }
        i = i + 1;
    }
    proof {
        assert(s@.take(s@.len() as int) =~= s@);
        assert(views(done@.push(open)) =~= views(done@).push(open@));
    }
    done.push(open);
    done
}

/// The words of `s`.
pub fn split_words(s: &str) -> (r: Vec<String>)
    ensures
        views(r@) == words(s@),
{
    let parts = split(s, Cut::Space);
    let mut r: Vec<String> = Vec::new();
    for i in 0..parts.len()
        invariant
            views(r@) == filled(views(parts@).take(i as int)),
    {
        let ghost r0 = r@;
        proof {
            assert(views(parts@).take(i + 1).drop_last() =~= views(parts@).take(i as int));
        }
        if !parts[i].as_str().is_empty() {
            r.push(parts[i].clone());
            proof {
                assert(views(r@) =~= views(r0).push(parts@[i as int]@));
            }
        }
    }
    proof {
        assert(views(parts@).take(parts@.len() as int) =~= views(parts@));
    }
    r
}

/// The lines of `s`.
pub fn split_lines(s: &str) -> (r: Vec<String>)
    ensures
        views(r@) == lines(s@),
{
    let parts = split(s, Cut::At('\n'));
    proof {
        lemma_pieces_not_empty(s@, Cut::At('\n'));
    }
    let last: usize = parts.len() - 1;
    let mut r: Vec<String> = Vec::new();
    for i in 0..last
        invariant
            last < parts@.len(),
            r@.len() == i,
            forall|j: int| 0 <= j < i ==> #[trigger] r@[j]@ == without_return(parts@[j]@),
    {
        let chars = chars_of(parts[i].as_str());
        let n: usize = chars.len();
        if n > 0 && chars[n - 1] == '\r' {
            r.push(text_between(&chars, 0, n - 1));
            proof {
                assert(chars@.subrange(0, n - 1) =~= parts@[i as int]@.drop_last());
            }
        } else {
            r.push(parts[i].clone());
        }
    }
    let ghost closed_lines = r@;
    if !parts[last].as_str().is_empty() {
        r.push(parts[last].clone());
        proof {
            assert(views(r@) =~= views(closed_lines).push(parts@.last()@));
        }
    }
    proof {
        assert(views(closed_lines) =~= Seq::new(
            (views(parts@).len() - 1) as nat,
            |i: int| without_return(views(parts@)[i]),
        ));
    }
    r
}

/// The texts in `parts` with `sep` between each two of them.
pub fn join(parts: &Vec<String>, sep: &str) -> (r: String)
    ensures
        r@ == joined(views(parts@), sep@),
{
    let mut r = String::new();
    proof {
        assert(r@ =~= joined(views(parts@).take(0), sep@));
    }
    for i in 0..parts.len()
        invariant
            r@ == joined(views(parts@).take(i as int), sep@),
    {
        proof {
            assert(views(parts@).take(i + 1).drop_last() =~= views(parts@).take(i as int));
        }
        if i > 0 {
            r.append(sep);
        } else {
            proof {
                assert(r@ =~= Seq::<char>::empty());
                assert(r@ + parts@[0]@ =~= parts@[0]@);
            }
        }
        r.append(parts[i].as_str());
    }
    proof {
        assert(views(parts@).take(parts@.len() as int) =~= views(parts@));
    }
    r
}

pub proof fn lemma_first_index_at(s: Seq<char>, c: char, n: int)
    requires
        0 <= n <= s.len(),
        forall|i: int| 0 <= i < n ==> #[trigger] s[i] != c,
        n < s.len() ==> s[n] == c,
    ensures
        first_index(s, c) == n,
    decreases s.len(),
{
    if n > 0 {
        let t = s.subrange(1, s.len() as int);
        assert forall|i: int| 0 <= i < n - 1 implies #[trigger] t[i] != c by {
            assert(t[i] == s[i + 1]);
        }
        lemma_first_index_at(t, c, n - 1);
        assert(s[0] != c);
    }
}

/// The place of the first `c`, or the number of characters.
pub fn index_of(chars: &Vec<char>, c: char) -> (n: usize)
    ensures
        n <= chars@.len(),
        n == first_index(chars@, c),
{
    let mut n: usize = 0;
    while n < chars.len() && chars[n] != c
        invariant
            n <= chars@.len(),
            forall|i: int| 0 <= i < n ==> #[trigger] chars@[i] != c,
        decreases chars@.len() - n,
    {
        n = n + 1;
    }
    proof {
        lemma_first_index_at(chars@, c, n as int);
    }
    n
}

/// What stands before and after the first `c` in `s`.
pub fn split_once(s: &str, c: char) -> (r: Option<(&str, &str)>)
    ensures
        r.deep_view() == split_at_first(s@, c),
{
    let chars = chars_of(s);
    let n: usize = index_of(&chars, c);
    if n < chars.len() {
        proof {
            assert(s@.subrange(0, n as int) =~= s@.take(n as int));
            assert(s@.subrange(n + 1, s@.len() as int) =~= s@.skip(n + 1));
        }
        Some((s.substring_char(0, n), s.substring_char(n + 1, chars.len())))
    } else {
        None
    }
}

/// Whether `s` begins with `prefix`.
pub fn starts_with(s: &str, prefix: &str) -> (r: bool)
    ensures
        r == prefix@.is_prefix_of(s@),
{
    strip_prefix(s, prefix).is_some()
}

/// What follows `prefix` in `s`.
pub fn strip_prefix<'a>(s: &'a str, prefix: &str) -> (r: Option<&'a str>)
    ensures
        r.deep_view() == after_prefix(s@, prefix@),
{
    let n: usize = prefix.unicode_len();
    let len: usize = s.unicode_len();
    if n <= len {
        proof {
            assert(s@.subrange(0, n as int) =~= s@.take(n as int));
            assert(s@.subrange(n as int, len as int) =~= s@.skip(n as int));
        }
        if same(s.substring_char(0, n), prefix) {
            return Some(s.substring_char(n, len));
        }
    }
    None
}

/// Whether `part` stands somewhere in `s`.
pub fn contains(s: &str, part: &str) -> (r: bool)
    ensures
        r == holds(s@, part@),
{
    let n: usize = part.unicode_len();
    let len: usize = s.unicode_len();
    if n > len {
        return false;
    }
    let mut i: usize = 0;
    while i <= len - n
        invariant
            n == part@.len(),
            len == s@.len(),
            n <= len,
            i <= len - n + 1,
            forall|j: int| 0 <= j < i ==> !#[trigger] holds_at(s@, part@, j),
        decreases len - i,
    {
        if same(s.substring_char(i, i + n), part) {
            proof {
                assert(holds_at(s@, part@, i as int));
            }
            return true;
        }
        if i == len - n {
            return false;
        }
        i = i + 1;
    }
    false
}

// ---------------------------------------------------------------------------
// Letters and numbers
// ---------------------------------------------------------------------------

fn lower_char(c: char) -> (r: char)
    ensures
        r == ascii_lower_char(c),
{
    match c {
        'A' => 'a',
        'B' => 'b',
        'C' => 'c',
        'D' => 'd',
        'E' => 'e',
        'F' => 'f',
        'G' => 'g',
        'H' => 'h',
        'I' => 'i',
        'J' => 'j',
        'K' => 'k',
        'L' => 'l',
        'M' => 'm',
        'N' => 'n',
        'O' => 'o',
        'P' => 'p',
        'Q' => 'q',
        'R' => 'r',
        'S' => 's',
        'T' => 't',
        'U' => 'u',
        'V' => 'v',
        'W' => 'w',
        'X' => 'x',
        'Y' => 'y',
        'Z' => 'z',
        _ => c,
    }
}

/// `s` with its ASCII capitals in lower case.
pub fn to_ascii_lower(s: &str) -> (r: String)
    ensures
        r@ == ascii_lower(s@),
{
    let mut r = String::new();
    for c in it: s.chars()
        invariant
            it.seq() == s@,
            r@ == ascii_lower(s@).take(it.index() as int),
    {
        proof {
            assert(ascii_lower(s@).take(it.index() + 1) =~= ascii_lower(s@).take(
                it.index() as int,
            ).push(ascii_lower_char(c)));
        }
        r.push(lower_char(c));
    }
    proof {
        assert(ascii_lower(s@).take(s@.len() as int) =~= ascii_lower(s@));
    }
    r
}

fn digit_char(n: u64) -> (c: char)
    requires
        n < 10,
    ensures
        c == digit(n as nat),
{
    match n {
        0 => '0',
        1 => '1',
        2 => '2',
        3 => '3',
        4 => '4',
        5 => '5',
        6 => '6',
        7 => '7',
        8 => '8',
        _ => '9',
    }
}

/// `n` in decimal.
pub fn to_decimal(n: u64) -> (r: String)
    ensures
        r@ == decimal(n as nat),
    decreases n,
{
    if n < 10 {
        let mut r = String::new();
        r.push(digit_char(n));
        proof {
            assert(r@ =~= seq![digit(n as nat)]);
        }
        r
    } else {
        let mut r = to_decimal(n / 10);
        r.push(digit_char(n % 10));
        r
    }
}

proof fn lemma_digits_value_grows(s: Seq<char>, i: int)
    requires
        0 <= i <= s.len(),
    ensures
        digits_value(s.take(i)) <= digits_value(s),
    decreases s.len() - i,
{
    if i < s.len() {
        lemma_digits_value_grows(s, i + 1);
        assert(s.take(i + 1).drop_last() =~= s.take(i));
    } else {
        assert(s.take(i) =~= s);
    }
}

/// The number that the digits from `from` on write, within 64 bits.
fn parse_digits(chars: &Vec<char>, from: usize) -> (r: Option<u64>)
    requires
        from < chars@.len(),
    ensures
        r == plain_number(chars@.skip(from as int)),
{
    let ghost digits = chars@.skip(from as int);
    let mut value: u64 = 0;
    let mut i: usize = from;
    while i < chars.len()
        invariant
            from <= i <= chars@.len(),
            digits == chars@.skip(from as int),
            value == digits_value(digits.take(i - from)),
            forall|j: int| 0 <= j < i - from ==> is_digit(#[trigger] digits[j]),
        decreases chars@.len() - i,
    {
        let c = chars[i];
        proof {
            assert(digits[i - from] == c);
            assert(digits.take(i - from + 1).drop_last() =~= digits.take(i - from));
            assert(digits.take(i - from + 1).last() == c);
            lemma_digits_value_grows(digits, i - from + 1);
        }
        if !('0' <= c && c <= '9') {
            proof {
                assert(!is_digit(digits[i - from]));
            }
            return None;
        }
        let d: u64 = (c as u32 - 0x30) as u64;
        if value > (u64::MAX - d) / 10 {
            return None;
        }
        value = value * 10 + d;
        i = i + 1;
    }
    proof {
        assert(digits.take(digits.len() as int) =~= digits);
    }
    Some(value)
}

/// The number that `s` writes.
pub fn parse_number(s: &str) -> (r: Option<u64>)
    ensures
        r == number(s@),
{
    let chars = chars_of(s);
    if chars.len() == 0 {
        return None;
    }
    if chars.len() > 1 && chars[0] == '+' {
        parse_digits(&chars, 1)
    } else {
        proof {
            assert(s@.skip(0) =~= s@);
        }
        parse_digits(&chars, 0)
    }
}

// ---------------------------------------------------------------------------
// Order
// ---------------------------------------------------------------------------

/// Whether `a` stands before `b` in the order of their characters.
pub open spec fn less(a: Seq<char>, b: Seq<char>) -> bool
    decreases a.len(),
{
    if b.len() == 0 {
        false
    } else if a.len() == 0 {
        true
    } else if a[0] != b[0] {
        a[0] < b[0]
    } else {
        less(a.subrange(1, a.len() as int), b.subrange(1, b.len() as int))
    }
}

/// `list` with `s` behind all that do not stand after it.
pub open spec fn inserted(list: Seq<Seq<char>>, s: Seq<char>) -> Seq<Seq<char>>
    decreases list.len(),
{
    if list.len() > 0 && less(s, list.last()) {
        inserted(list.drop_last(), s).push(list.last())
    } else {
        list.push(s)
    }
}

/// The texts of `list` in order.
pub open spec fn sorted(list: Seq<Seq<char>>) -> Seq<Seq<char>>
    decreases list.len(),
{
    if list.len() == 0 {
        list
    } else {
        inserted(sorted(list.drop_last()), list.last())
    }
}

proof fn lemma_less_at(a: Seq<char>, b: Seq<char>, n: int)
    requires
        0 <= n <= a.len(),
        n <= b.len(),
        a.take(n) == b.take(n),
    ensures
        less(a, b) == less(a.skip(n), b.skip(n)),
    decreases n,
{
    if n > 0 {
        let a1 = a.subrange(1, a.len() as int);
        let b1 = b.subrange(1, b.len() as int);
        assert(a[0] == a.take(n)[0]);
        assert(b[0] == b.take(n)[0]);
        assert(a1.take(n - 1) =~= a.take(n).skip(1));
        assert(b1.take(n - 1) =~= b.take(n).skip(1));
        lemma_less_at(a1, b1, n - 1);
        assert(a1.skip(n - 1) =~= a.skip(n));
        assert(b1.skip(n - 1) =~= b.skip(n));
    } else {
        assert(a.skip(0) =~= a);
        assert(b.skip(0) =~= b);
    }
}

/// Whether `a` stands before `b`.
pub fn is_less(a: &str, b: &str) -> (r: bool)
    ensures
        r == less(a@, b@),
{
    let a_chars = chars_of(a);
    let b_chars = chars_of(b);
    let mut i: usize = 0;
    while i < a_chars.len() && i < b_chars.len() && a_chars[i] == b_chars[i]
        invariant
            a_chars@ == a@,
            b_chars@ == b@,
            i <= a_chars@.len(),
            i <= b_chars@.len(),
            a@.take(i as int) == b@.take(i as int),
        decreases a_chars@.len() - i,
    {
        proof {
            assert(a@.take(i + 1) =~= a@.take(i as int).push(a@[i as int]));
            assert(b@.take(i + 1) =~= b@.take(i as int).push(b@[i as int]));
        }
        i = i + 1;
    }
    proof {
        lemma_less_at(a@, b@, i as int);
    }
    i < b_chars.len() && (i == a_chars.len() || a_chars[i] < b_chars[i])
}

proof fn lemma_inserted_at(list: Seq<Seq<char>>, s: Seq<char>, n: int)
    requires
        0 <= n <= list.len(),
        forall|i: int| n <= i < list.len() ==> less(s, #[trigger] list[i]),
        n > 0 ==> !less(s, list[n - 1]),
    ensures
        inserted(list, s) == list.insert(n, s),
    decreases list.len(),
{
    if n < list.len() {
        lemma_inserted_at(list.drop_last(), s, n);
        assert(list.drop_last().insert(n, s).push(list.last()) =~= list.insert(n, s));
    } else {
        assert(list.push(s) =~= list.insert(n, s));
    }
}

/// The texts of `list` in order.
pub fn sort(list: &Vec<String>) -> (r: Vec<String>)
    ensures
        views(r@) == sorted(views(list@)),
{
    let mut r: Vec<String> = Vec::new();
    let ghost all = views(list@);
    proof {
        assert(views(r@) =~= all.take(0));
    }
    for i in 0..list.len()
        invariant
            all == views(list@),
            views(r@) == sorted(all.take(i as int)),
    {
        let ghost before = views(r@);
        let mut n: usize = r.len();
        while n > 0 && is_less(list[i].as_str(), r[n - 1].as_str())
            invariant
                i < list@.len(),
                before == views(r@),
                n <= r@.len(),
                forall|j: int| n <= j < r@.len() ==> less(list@[i as int]@, #[trigger] before[j]),
            decreases n,
        {
            n = n - 1;
            proof {
                assert(before[n as int] == r@[n as int]@);
            }
        }
        proof {
            if n > 0 {
                assert(before[n - 1] == r@[n - 1]@);
            }
            lemma_inserted_at(before, list@[i as int]@, n as int);
            assert(all.take(i + 1).drop_last() =~= all.take(i as int));
        }
        r.insert(n, list[i].clone());
        proof {
            assert(views(r@) =~= before.insert(n as int, list@[i as int]@));
        }
    }
    proof {
        assert(all.take(all.len() as int) =~= all);
    }
    r
}

/// Of two texts that differ, exactly one stands before the other.
pub proof fn law_less_is_an_order(a: Seq<char>, b: Seq<char>)
    ensures
        less(a, b) ==> !less(b, a),
        !less(a, b) && !less(b, a) ==> a == b,
    decreases a.len(),
{
    if a.len() > 0 && b.len() > 0 && a[0] == b[0] {
        let a1 = a.subrange(1, a.len() as int);
        let b1 = b.subrange(1, b.len() as int);
        law_less_is_an_order(a1, b1);
        if a1 == b1 {
            assert(a =~= seq![a[0]] + a1);
            assert(b =~= seq![b[0]] + b1);
        }
    } else if a.len() == 0 && b.len() == 0 {
        assert(a =~= b);
    }
}

pub proof fn lemma_less_transitive(a: Seq<char>, b: Seq<char>, c: Seq<char>)
    requires
        !less(b, a),
        !less(c, b),
    ensures
        !less(c, a),
    decreases a.len(),
{
    if a.len() > 0 && b.len() > 0 && c.len() > 0 && a[0] == b[0] && b[0] == c[0] {
        lemma_less_transitive(
            a.subrange(1, a.len() as int),
            b.subrange(1, b.len() as int),
            c.subrange(1, c.len() as int),
        );
    }
}

/// Whether no text in `list` stands before an earlier one.
pub open spec fn is_sorted(list: Seq<Seq<char>>) -> bool {
    forall|i: int, j: int|
        0 <= i < j < list.len() ==> !less(#[trigger] list[j], #[trigger] list[i])
}

proof fn lemma_inserted_len(list: Seq<Seq<char>>, s: Seq<char>)
    ensures
        inserted(list, s).len() == list.len() + 1,
    decreases list.len(),
{
    if list.len() > 0 {
        lemma_inserted_len(list.drop_last(), s);
    }
}

/// To sort a list loses nothing and adds nothing in number.
pub proof fn lemma_sorted_len(list: Seq<Seq<char>>)
    ensures
        sorted(list).len() == list.len(),
    decreases list.len(),
{
    if list.len() > 0 {
        lemma_sorted_len(list.drop_last());
        lemma_inserted_len(sorted(list.drop_last()), list.last());
    }
}

proof fn lemma_inserted_sorted(list: Seq<Seq<char>>, s: Seq<char>)
    requires
        is_sorted(list),
    ensures
        is_sorted(inserted(list, s)),
        inserted(list, s).to_multiset() == list.to_multiset().insert(s),
        forall|x: Seq<char>| #[trigger]
            inserted(list, s).contains(x) ==> x == s || list.contains(x),
    decreases list.len(),
{
    broadcast use vstd::seq_lib::group_to_multiset_ensures;

    if list.len() > 0 && less(s, list.last()) {
        let head = list.drop_last();
        lemma_inserted_sorted(head, s);
        let front = inserted(head, s);
        assert forall|i: int| 0 <= i < front.len() implies !less(
            list.last(),
            #[trigger] front[i],
        ) by {
            assert(front.contains(front[i]));
            if front[i] == s {
                law_less_is_an_order(s, list.last());
            } else {
                let k = choose|k: int| 0 <= k < head.len() && head[k] == front[i];
                assert(list[k] == front[i]);
            }
        }
        assert(list =~= head.push(list.last()));
        assert(list.to_multiset() == head.to_multiset().insert(list.last()));
        assert(inserted(list, s).to_multiset() =~= list.to_multiset().insert(s));
        assert forall|x: Seq<char>| #[trigger] inserted(list, s).contains(x) implies x == s
            || list.contains(x) by {
            let k = choose|k: int| 0 <= k < inserted(list, s).len() && inserted(list, s)[k] == x;
            if k < front.len() {
                assert(front.contains(x));
                if x != s {
                    let m = choose|m: int| 0 <= m < head.len() && head[m] == x;
                    assert(list[m] == x);
                }
            } else {
                assert(list[list.len() - 1] == x);
            }
        }
    } else {
        assert forall|i: int| 0 <= i < list.len() implies !less(s, #[trigger] list[i]) by {
            if i < list.len() - 1 {
                lemma_less_transitive(list[i], list.last(), s);
            }
        }
        assert forall|x: Seq<char>| #[trigger] inserted(list, s).contains(x) implies x == s
            || list.contains(x) by {
            let k = choose|k: int| 0 <= k < list.push(s).len() && list.push(s)[k] == x;
            if k < list.len() {
                assert(list[k] == x);
            }
        }
    }
}

/// Sorting puts the texts in order and neither drops nor adds one.
pub proof fn law_sorted_is_in_order(list: Seq<Seq<char>>)
    ensures
        is_sorted(sorted(list)),
        sorted(list).to_multiset() == list.to_multiset(),
    decreases list.len(),
{
    broadcast use vstd::seq_lib::group_to_multiset_ensures;

    if list.len() > 0 {
        law_sorted_is_in_order(list.drop_last());
        lemma_inserted_sorted(sorted(list.drop_last()), list.last());
        assert(list =~= list.drop_last().push(list.last()));
    }
}

// ---------------------------------------------------------------------------
// White space around a text
// ---------------------------------------------------------------------------

/// What is left begins with no white space.
pub proof fn lemma_trimmed_start(s: Seq<char>)
    ensures
        trimmed_start(s).len() == 0 || !is_space(trimmed_start(s)[0]),
    decreases s.len(),
{
    if s.len() > 0 && is_space(s[0]) {
        lemma_trimmed_start(s.subrange(1, s.len() as int));
    }
}

/// What is left ends with no white space.
pub proof fn lemma_trimmed_end(s: Seq<char>)
    requires
        s.len() == 0 || !is_space(s[0]),
    ensures
        ({
            let t = trimmed_end(s);
            &&& t.len() == 0 ==> s.len() == 0
            &&& t.len() > 0 ==> !is_space(t[0]) && !is_space(t.last())
        }),
    decreases s.len(),
{
    if s.len() > 0 && is_space(s.last()) {
        if s.len() == 1 {
            assert(s.last() == s[0]);
        } else {
            assert(s.drop_last()[0] == s[0]);
            lemma_trimmed_end(s.drop_last());
        }
    }
}

/// A text without white space around it stays as it is.
pub proof fn lemma_tight(s: Seq<char>)
    requires
        s.len() > 0,
        !is_space(s[0]),
        !is_space(s.last()),
    ensures
        trimmed(s) == s,
{
}

/// Trimming twice is the same as trimming once.
pub proof fn law_trimming_twice_is_trimming_once(s: Seq<char>)
    ensures
        trimmed(trimmed(s)) == trimmed(s),
{
    lemma_trimmed_start(s);
    lemma_trimmed_end(trimmed_start(s));
    let t = trimmed(s);
    if t.len() > 0 {
        lemma_tight(t);
    }
}

/// What stands between white space is what trimming leaves.
pub proof fn lemma_trimmed_between(s: Seq<char>, from: int, to: int)
    requires
        0 <= from < to <= s.len(),
        forall|i: int| 0 <= i < from ==> is_space(#[trigger] s[i]),
        forall|i: int| to <= i < s.len() ==> is_space(#[trigger] s[i]),
        !is_space(s[from]),
        !is_space(s[to - 1]),
    ensures
        trimmed_start(s) == s.skip(from),
        trimmed(s) == s.subrange(from, to),
{
    lemma_trimmed_start_at(s, from);
    let t = s.skip(from);
    assert forall|i: int| to - from <= i < t.len() implies is_space(#[trigger] t[i]) by {
        assert(t[i] == s[i + from]);
    }
    assert(t[to - from - 1] == s[to - 1]);
    lemma_trimmed_end_at(t, to - from);
    assert(t.take(to - from) =~= s.subrange(from, to));
}

/// A carriage return at the end is white space like any other.
pub proof fn lemma_trimmed_without_return(line: Seq<char>)
    ensures
        trimmed(without_return(line)) == trimmed(line),
    decreases line.len(),
{
    if line.len() > 0 && line.last() == '\r' {
        let short = line.drop_last();
        if short.len() > 0 && is_space(line[0]) {
            let rest = line.subrange(1, line.len() as int);
            assert(rest.last() == '\r');
            assert(rest.drop_last() =~= short.subrange(1, short.len() as int));
            lemma_trimmed_without_return(rest);
        } else if short.len() == 0 {
            assert(line.subrange(1, 1) =~= short);
            assert(trimmed_start(short) == short);
        }
    }
}

// ---------------------------------------------------------------------------
// Cutting and joining
// ---------------------------------------------------------------------------

/// No piece holds what the text was cut at.
pub proof fn lemma_pieces_are_whole(s: Seq<char>, cut: Cut)
    ensures
        pieces(s, cut).len() > 0,
        forall|i: int, j: int|
            0 <= i < pieces(s, cut).len() && 0 <= j < pieces(s, cut)[i].len() ==> !cut.cuts(
                #[trigger] pieces(s, cut)[i][j],
            ),
    decreases s.len(),
{
    if s.len() > 0 {
        lemma_pieces_are_whole(s.drop_last(), cut);
        let before = pieces(s.drop_last(), cut);
        let all = pieces(s, cut);
        assert forall|i: int, j: int|
            0 <= i < all.len() && 0 <= j < all[i].len() implies !cut.cuts(
            #[trigger] all[i][j],
        ) by {
            if i < before.len() - 1 {
                assert(all[i] == before[i]);
            } else if !cut.cuts(s.last()) && j < before.last().len() {
                assert(all[i][j] == before[before.len() - 1][j]);
            } else if i < before.len() {
                if cut.cuts(s.last()) {
                    assert(all[i] == before[i]);
                }
            }
        }
    }
}

proof fn lemma_pieces_behind(head: Seq<char>, c: char, tail: Seq<char>)
    requires
        forall|i: int| 0 <= i < tail.len() ==> #[trigger] tail[i] != c,
    ensures
        pieces(head + seq![c] + tail, Cut::At(c)) == pieces(head, Cut::At(c)).push(tail),
    decreases tail.len(),
{
    let all = head + seq![c] + tail;
    lemma_pieces_not_empty(head, Cut::At(c));
    if tail.len() == 0 {
        assert(all.drop_last() =~= head);
        assert(all.last() == c);
        assert(tail =~= Seq::<char>::empty());
    } else {
        assert(all.drop_last() =~= head + seq![c] + tail.drop_last());
        assert(all.last() == tail.last());
        lemma_pieces_behind(head, c, tail.drop_last());
        assert(tail.drop_last().push(tail.last()) =~= tail);
        assert(pieces(head, Cut::At(c)).push(tail.drop_last()).drop_last() =~= pieces(
            head,
            Cut::At(c),
        ));
    }
}

/// A text without `c` is one piece.
pub proof fn lemma_pieces_alone(s: Seq<char>, c: char)
    requires
        forall|i: int| 0 <= i < s.len() ==> #[trigger] s[i] != c,
    ensures
        pieces(s, Cut::At(c)) == seq![s],
    decreases s.len(),
{
    if s.len() > 0 {
        lemma_pieces_alone(s.drop_last(), c);
        assert(s.drop_last().push(s.last()) =~= s);
        assert(seq![s.drop_last()].drop_last().push(s) =~= seq![s]);
    } else {
        assert(s =~= Seq::<char>::empty());
    }
}

/// Cutting undoes joining.
pub proof fn law_cutting_undoes_joining(parts: Seq<Seq<char>>, c: char)
    requires
        parts.len() > 0,
        forall|i: int, j: int|
            0 <= i < parts.len() && 0 <= j < parts[i].len() ==> #[trigger] parts[i][j] != c,
    ensures
        pieces(joined(parts, seq![c]), Cut::At(c)) == parts,
    decreases parts.len(),
{
    if parts.len() == 1 {
        assert(forall|j: int| 0 <= j < parts[0].len() ==> #[trigger] parts[0][j] != c);
        lemma_pieces_alone(parts[0], c);
        assert(parts =~= seq![parts[0]]);
    } else {
        let front = parts.drop_last();
        assert forall|i: int, j: int|
            0 <= i < front.len() && 0 <= j < front[i].len() implies #[trigger] front[i][j] != c by {
            assert(front[i] == parts[i]);
        }
        law_cutting_undoes_joining(front, c);
        let last = parts[parts.len() - 1];
        assert(forall|j: int| 0 <= j < last.len() ==> #[trigger] last[j] != c);
        lemma_pieces_behind(joined(front, seq![c]), c, last);
        assert(front.push(last) =~= parts);
    }
}

proof fn lemma_pieces_of_both(a: Seq<char>, b: Seq<char>, c: char)
    ensures
        pieces(a + seq![c] + b, Cut::At(c)) == pieces(a, Cut::At(c)) + pieces(b, Cut::At(c)),
    decreases b.len(),
{
    let all = a + seq![c] + b;
    let first = pieces(a, Cut::At(c));
    lemma_pieces_not_empty(a, Cut::At(c));
    lemma_pieces_not_empty(b, Cut::At(c));
    if b.len() == 0 {
        assert(all.drop_last() =~= a);
        assert(all.last() == c);
        assert(first.push(Seq::<char>::empty()) =~= first + pieces(b, Cut::At(c)));
    } else {
        let front = b.drop_last();
        let before = pieces(front, Cut::At(c));
        lemma_pieces_of_both(a, front, c);
        lemma_pieces_not_empty(front, Cut::At(c));
        assert(all.drop_last() =~= a + seq![c] + front);
        assert(all.last() == b.last());
        if b.last() == c {
            assert((first + before).push(Seq::<char>::empty()) =~= first + before.push(
                Seq::<char>::empty(),
            ));
        } else {
            let last = before.last().push(b.last());
            assert((first + before).last() == before.last());
            assert((first + before).drop_last().push(last) =~= first + before.drop_last().push(
                last,
            ));
        }
    }
}

/// The lines of two texts with a line feed between them are those of the first, each
/// of which is then ended, and those of the second.
pub proof fn law_lines_stand_one_below_the_other(a: Seq<char>, b: Seq<char>)
    ensures
        ({
            let first = pieces(a, Cut::At('\n'));
            lines(a + seq!['\n'] + b) == Seq::new(
                first.len(),
                |i: int| without_return(first[i]),
            ) + lines(b)
        }),
{
    lemma_pieces_of_both(a, b, '\n');
    lemma_pieces_not_empty(a, Cut::At('\n'));
    lemma_pieces_not_empty(b, Cut::At('\n'));
    let first = pieces(a, Cut::At('\n'));
    let ended = Seq::new(first.len(), |i: int| without_return(first[i]));
    let second = pieces(b, Cut::At('\n'));
    let all = first + second;
    assert(all.last() == second.last());
    assert(lines(a + seq!['\n'] + b) =~= ended + lines(b));
}

/// Lines that were put together are found again, one by one.
pub proof fn law_lines_are_found_again(parts: Seq<Seq<char>>)
    requires
        parts.len() > 0,
        parts.last().len() > 0,
        forall|i: int, j: int|
            0 <= i < parts.len() && 0 <= j < parts[i].len() ==> #[trigger] parts[i][j] != '\n',
        forall|i: int|
            0 <= i < parts.len() && parts[i].len() > 0 ==> (#[trigger] parts[i]).last() != '\r',
    ensures
        lines(joined(parts, seq!['\n'])) == parts,
{
    law_cutting_undoes_joining(parts, '\n');
    assert(lines(joined(parts, seq!['\n'])) =~= parts);
}

/// A number that was written is read again.
pub proof fn law_a_number_is_read_as_it_is_written(n: u64)
    ensures
        number(decimal(n as nat)) == Some(n),
{
    lemma_decimal(n as nat);
    assert(is_digit(decimal(n as nat)[0]));
}

/// What writes a number are digits, and their value is the number.
pub proof fn lemma_decimal(n: nat)
    ensures
        decimal(n).len() > 0,
        all_digits(decimal(n)),
        digits_value(decimal(n)) == n,
    decreases n,
{
    if n < 10 {
        assert(decimal(n).drop_last() =~= Seq::<char>::empty());
        assert(digits_value(decimal(n).drop_last()) == 0);
    } else {
        lemma_decimal(n / 10);
        let front = decimal(n / 10);
        assert(decimal(n).drop_last() =~= front);
        assert forall|i: int| 0 <= i < decimal(n).len() implies is_digit(
            #[trigger] decimal(n)[i],
        ) by {
            if i < front.len() {
                assert(decimal(n)[i] == front[i]);
            }
        }
    }
}

/// Of two texts, the one with the smaller character at the first difference stands
/// first, and a text stands before whatever begins with it.
pub proof fn law_the_first_difference_decides(a: Seq<char>, b: Seq<char>, n: int)
    requires
        0 <= n <= a.len(),
        n < b.len(),
        forall|i: int| 0 <= i < n ==> #[trigger] a[i] == b[i],
        n < a.len() ==> a[n] < b[n],
    ensures
        less(a, b),
        !less(b, a),
    decreases n,
{
    if n > 0 {
        let a1 = a.subrange(1, a.len() as int);
        let b1 = b.subrange(1, b.len() as int);
        assert(a[0] == b[0]);
        assert forall|i: int| 0 <= i < n - 1 implies #[trigger] a1[i] == b1[i] by {
            assert(a[i + 1] == b[i + 1]);
        }
        law_the_first_difference_decides(a1, b1, n - 1);
    }
}

/// Trimming takes away white space at the ends, all of it, and nothing else.
pub proof fn law_trimming_takes_white_space_only(s: Seq<char>) -> (ends: (int, int))
    ensures
        0 <= ends.0 <= ends.1 <= s.len(),
        trimmed(s) == s.subrange(ends.0, ends.1),
        forall|i: int| 0 <= i < ends.0 ==> is_space(#[trigger] s[i]),
        forall|i: int| ends.1 <= i < s.len() ==> is_space(#[trigger] s[i]),
        ends.0 < ends.1 ==> !is_space(s[ends.0]) && !is_space(s[ends.1 - 1]),
{
    let from = lemma_start_of(s);
    let rest = s.skip(from);
    let to = lemma_end_of(rest);
    lemma_trimmed_start(s);
    lemma_trimmed_end(rest);
    assert(rest.take(to) =~= s.subrange(from, from + to));
    assert forall|i: int| from + to <= i < s.len() implies is_space(#[trigger] s[i]) by {
        assert(s[i] == rest[i - from]);
    }
    (from, from + to)
}

proof fn lemma_start_of(s: Seq<char>) -> (from: int)
    ensures
        0 <= from <= s.len(),
        trimmed_start(s) == s.skip(from),
        forall|i: int| 0 <= i < from ==> is_space(#[trigger] s[i]),
    decreases s.len(),
{
    if s.len() > 0 && is_space(s[0]) {
        let rest = s.subrange(1, s.len() as int);
        let from = lemma_start_of(rest);
        assert(rest.skip(from) =~= s.skip(from + 1));
        assert forall|i: int| 0 <= i < from + 1 implies is_space(#[trigger] s[i]) by {
            if i > 0 {
                assert(s[i] == rest[i - 1]);
            }
        }
        from + 1
    } else {
        assert(s.skip(0) =~= s);
        0
    }
}

proof fn lemma_end_of(s: Seq<char>) -> (to: int)
    ensures
        0 <= to <= s.len(),
        trimmed_end(s) == s.take(to),
        forall|i: int| to <= i < s.len() ==> is_space(#[trigger] s[i]),
    decreases s.len(),
{
    if s.len() > 0 && is_space(s.last()) {
        let front = s.drop_last();
        let to = lemma_end_of(front);
        assert(front.take(to) =~= s.take(to));
        assert forall|i: int| to <= i < s.len() implies is_space(#[trigger] s[i]) by {
            if i < front.len() {
                assert(s[i] == front[i]);
            }
        }
        to
    } else {
        assert(s.take(s.len() as int) =~= s);
        s.len() as int
    }
}

/// What is seen of ASCII is no white space; blanks, tabs and line breaks are.
pub proof fn law_what_is_seen_is_no_white_space(c: char)
    ensures
        0x21 <= c as u32 <= 0x7e ==> !is_space(c),
        c == ' ' || c == '\t' || c == '\n' || c == '\r' ==> is_space(c),
{
}

proof fn lemma_words_behind(head: Seq<char>, tail: Seq<char>)
    requires
        forall|i: int| 0 <= i < tail.len() ==> !is_space(#[trigger] tail[i]),
    ensures
        pieces(head + seq![' '] + tail, Cut::Space) == pieces(head, Cut::Space).push(tail),
    decreases tail.len(),
{
    let all = head + seq![' '] + tail;
    lemma_pieces_not_empty(head, Cut::Space);
    if tail.len() == 0 {
        assert(all.drop_last() =~= head);
        assert(all.last() == ' ');
        assert(tail =~= Seq::<char>::empty());
    } else {
        assert(all.drop_last() =~= head + seq![' '] + tail.drop_last());
        assert(all.last() == tail.last());
        lemma_words_behind(head, tail.drop_last());
        assert(tail.drop_last().push(tail.last()) =~= tail);
        assert(pieces(head, Cut::Space).push(tail.drop_last()).drop_last() =~= pieces(
            head,
            Cut::Space,
        ));
    }
}

proof fn lemma_one_word(s: Seq<char>)
    requires
        forall|i: int| 0 <= i < s.len() ==> !is_space(#[trigger] s[i]),
    ensures
        pieces(s, Cut::Space) == seq![s],
    decreases s.len(),
{
    if s.len() > 0 {
        lemma_one_word(s.drop_last());
        assert(s.drop_last().push(s.last()) =~= s);
        assert(seq![s.drop_last()].drop_last().push(s) =~= seq![s]);
    } else {
        assert(s =~= Seq::<char>::empty());
    }
}

/// Words with blanks between them are found again.
pub proof fn law_words_are_found_again(parts: Seq<Seq<char>>)
    requires
        forall|i: int| 0 <= i < parts.len() ==> (#[trigger] parts[i]).len() > 0,
        forall|i: int, j: int|
            0 <= i < parts.len() && 0 <= j < parts[i].len() ==> !is_space(#[trigger] parts[i][j]),
    ensures
        words(joined(parts, seq![' '])) == parts,
        parts.len() > 0 ==> pieces(joined(parts, seq![' ']), Cut::Space) == parts,
    decreases parts.len(),
{
    if parts.len() == 0 {
        assert(filled(seq![Seq::<char>::empty()].drop_last()) =~= parts);
        assert(words(Seq::<char>::empty()) =~= parts);
    } else {
        let front = parts.drop_last();
        let last = parts[parts.len() - 1];
        assert(forall|j: int| 0 <= j < last.len() ==> !is_space(#[trigger] last[j]));
        assert forall|i: int, j: int| 0 <= i < front.len() && 0 <= j < front[i].len() implies
            !is_space(#[trigger] front[i][j]) by {
            assert(front[i] == parts[i]);
        }
        law_words_are_found_again(front);
        if parts.len() == 1 {
            lemma_one_word(last);
            assert(parts =~= seq![last]);
        } else {
            lemma_words_behind(joined(front, seq![' ']), last);
            assert(front.push(last) =~= parts);
        }
        lemma_all_filled(parts);
    }
}

proof fn lemma_all_filled(parts: Seq<Seq<char>>)
    requires
        forall|i: int| 0 <= i < parts.len() ==> (#[trigger] parts[i]).len() > 0,
    ensures
        filled(parts) == parts,
    decreases parts.len(),
{
    if parts.len() > 0 {
        lemma_all_filled(parts.drop_last());
        assert(parts.drop_last().push(parts.last()) =~= parts);
    } else {
        assert(filled(parts) =~= parts);
    }
}

/// Two rows of texts with the same between each two make one row.
pub proof fn law_rows_are_joined(a: Seq<Seq<char>>, b: Seq<Seq<char>>, sep: Seq<char>)
    requires
        a.len() > 0,
        b.len() > 0,
    ensures
        joined(a + b, sep) == joined(a, sep) + sep + joined(b, sep),
    decreases b.len(),
{
    assert((a + b).drop_last() =~= a + b.drop_last());
    assert((a + b).last() == b.last());
    if b.len() == 1 {
        assert(a + b.drop_last() =~= a);
        assert(b.last() == b[0]);
    } else {
        law_rows_are_joined(a, b.drop_last(), sep);
        assert(joined(a + b, sep) =~= joined(a, sep) + sep + joined(b, sep));
    }
}

/// A text that is nothing but white space counts as none; of any other, what is left
/// after trimming counts.
pub proof fn law_white_space_counts_as_nothing(s: Seq<char>)
    ensures
        present(None) is None,
        present(Some(s)) is None <==> forall|i: int|
            0 <= i < s.len() ==> is_space(#[trigger] s[i]),
        present(Some(s)) matches Some(t) ==> t == trimmed(s) && t.len() > 0,
        is_blank(s) <==> forall|i: int| 0 <= i < s.len() ==> is_space(#[trigger] s[i]),
{
    let (from, to) = law_trimming_takes_white_space_only(s);
    if from < to {
        assert(!is_space(s[from]));
    } else {
        assert(trimmed(s).len() == 0);
        assert forall|i: int| 0 <= i < s.len() implies is_space(#[trigger] s[i]) by {
            if i >= from {
                assert(i >= to);
            }
        }
    }
}

} // verus!
