//! Text helpers: the standard library's Unicode operations behind stated
//! contracts, and verified joining, capitalising and number rendering.

use vstd::prelude::*;
use vstd::string::*;

verus! {

/// The texts held by a list of strings.
pub open spec fn texts(v: Seq<String>) -> Seq<Seq<char>> {
    Seq::new(v.len(), |i: int| v[i]@)
}

/// What `str::to_lowercase` gives for a text.
pub uninterp spec fn lowercase_of(s: Seq<char>) -> Seq<char>;

/// Calls `str::to_lowercase`. Trusted: the result depends on the text alone
/// and is named `lowercase_of`.
#[verifier::external_body]
pub(crate) fn to_lowercase(s: &str) -> (r: String)
    ensures
        r@ == lowercase_of(s@),
{
    s.to_lowercase()
}

/// What `char::to_uppercase` gives for a character (it may be several).
pub uninterp spec fn uppercase_of(c: char) -> Seq<char>;

/// Calls `char::to_uppercase` and collects what it yields. Trusted: the
/// result depends on the character alone and is named `uppercase_of`.
#[verifier::external_body]
pub(crate) fn char_to_uppercase(c: char) -> (r: String)
    ensures
        r@ == uppercase_of(c),
{
    c.to_uppercase().to_string()
}

/// The maximal runs of non-whitespace characters of a text, in order, as
/// `str::split_whitespace` yields them.
pub uninterp spec fn whitespace_tokens(s: Seq<char>) -> Seq<Seq<char>>;

/// Calls `str::split_whitespace` and copies each piece. Trusted: the pieces
/// depend on the text alone and are named `whitespace_tokens`.
#[verifier::external_body]
pub(crate) fn split_whitespace(s: &str) -> (r: Vec<String>)
    ensures
        texts(r@) == whitespace_tokens(s@),
{
    s.split_whitespace().map(String::from).collect()
}

/// The number that `str::parse::<u64>` reads from a text, if it reads one.
pub uninterp spec fn parsed_number(s: Seq<char>) -> Option<u64>;

/// Calls `str::parse::<u64>`. Trusted: the outcome depends on the text alone
/// and is named `parsed_number`; a failure to parse is `None`.
#[verifier::external_body]
pub(crate) fn parse_number(s: &str) -> (r: Option<u64>)
    ensures
        r == parsed_number(s@),
{
    s.parse::<u64>().ok()
}

/// Whether `prefix` stands at the start of `s`.
pub open spec fn is_prefix(prefix: Seq<char>, s: Seq<char>) -> bool {
    prefix.len() <= s.len() && s.subrange(0, prefix.len() as int) == prefix
}

/// Whether two texts hold the same characters.
pub fn same_text(a: &str, b: &str) -> (r: bool)
    ensures
        r == (a@ == b@),
{
    let x = String::from_str(a);
    let y = String::from_str(b);
    x == y
}

/// Whether a text starts with the characters of `prefix`.
pub fn starts_with(s: &str, prefix: &str) -> (r: bool)
    ensures
        r == is_prefix(prefix@, s@),
{
    let n = prefix.unicode_len();
    if n > s.unicode_len() {
        return false;
    }
    same_text(s.substring_char(0, n), prefix)
}

/// The character of a decimal digit.
pub open spec fn digit_char(d: nat) -> char {
    if d == 0 {
        '0'
    } else if d == 1 {
        '1'
    } else if d == 2 {
        '2'
    } else if d == 3 {
        '3'
    } else if d == 4 {
        '4'
    } else if d == 5 {
        '5'
    } else if d == 6 {
        '6'
    } else if d == 7 {
        '7'
    } else if d == 8 {
        '8'
    } else {
        '9'
    }
}

/// A number in decimal, without sign or leading zeros.
pub open spec fn decimal(n: nat) -> Seq<char>
    decreases n,
{
    if n < 10 {
        seq![digit_char(n)]
    } else {
        decimal(n / 10).push(digit_char(n % 10))
    }
}

fn digit_text(d: u64) -> (r: &'static str)
    requires
        d < 10,
    ensures
        r@ =~= seq![digit_char(d as nat)],
{
    proof {
        reveal_strlit("0");
        reveal_strlit("1");
        reveal_strlit("2");
        reveal_strlit("3");
        reveal_strlit("4");
        reveal_strlit("5");
        reveal_strlit("6");
        reveal_strlit("7");
        reveal_strlit("8");
        reveal_strlit("9");
    }
    if d == 0 {
        "0"
    } else if d == 1 {
        "1"
    } else if d == 2 {
        "2"
    } else if d == 3 {
        "3"
    } else if d == 4 {
        "4"
    } else if d == 5 {
        "5"
    } else if d == 6 {
        "6"
    } else if d == 7 {
        "7"
    } else if d == 8 {
        "8"
    } else {
        "9"
    }
}

/// Appends a number in decimal to a string.
pub fn append_decimal(out: &mut String, n: u64)
    ensures
        final(out)@ == old(out)@ + decimal(n as nat),
    decreases n,
{
    if n >= 10 {
        append_decimal(out, n / 10);
    }
    out.append(digit_text(n % 10));
    proof {
        assert(final(out)@ =~= old(out)@ + decimal(n as nat));
    }
}

/// The pieces `parts[from..to]` with `sep` between neighbours.
pub open spec fn joined(parts: Seq<Seq<char>>, sep: Seq<char>, from: int, to: int) -> Seq<char>
    decreases to - from,
{
    if to <= from {
        Seq::empty()
    } else if to == from + 1 {
        parts[from]
    } else {
        joined(parts, sep, from, to - 1) + sep + parts[to - 1]
    }
}

/// Joins the strings from index `from` on, with `sep` between neighbours.
pub fn join_from(parts: &Vec<String>, from: usize, sep: &str) -> (r: String)
    ensures
        r@ == joined(texts(parts@), sep@, from as int, parts.len() as int),
{
    let mut out = String::new();
    let mut i: usize = from;
    while i < parts.len()
        invariant
            from <= i,
            i <= parts.len() || i == from,
            out@ == joined(texts(parts@), sep@, from as int, i as int),
        decreases parts.len() - i,
    {
        if i > from {
            out.append(sep);
        }
        out.append(parts[i].as_str());
        i += 1;
        proof {
            assert(out@ =~= joined(texts(parts@), sep@, from as int, i as int));
        }
    }
    out
}

/// A word with its first character in upper case.
pub open spec fn capitalized(t: Seq<char>) -> Seq<char> {
    if t.len() == 0 {
        t
    } else {
        uppercase_of(t[0]) + t.subrange(1, t.len() as int)
    }
}

/// Puts the first character of a word in upper case.
pub fn capitalize(t: &str) -> (r: String)
    ensures
        r@ == capitalized(t@),
{
    let n = t.unicode_len();
    if n == 0 {
        String::from_str(t)
    } else {
        let mut out = char_to_uppercase(t.get_char(0));
        out.append(t.substring_char(1, n));
        out
    }
}

/// Each word of a list with its first character in upper case.
pub open spec fn capitalized_all(parts: Seq<Seq<char>>) -> Seq<Seq<char>> {
    Seq::new(parts.len(), |i: int| capitalized(parts[i]))
}

/// The words of a text, each capitalised, with one space between them.
pub open spec fn title_cased(s: Seq<char>) -> Seq<char> {
    let parts = capitalized_all(whitespace_tokens(s));
    joined(parts, " "@, 0, parts.len() as int)
}

/// Splits a text at whitespace, capitalises each word and joins the words
/// with single spaces.
pub fn title_case(s: &str) -> (r: String)
    ensures
        r@ == title_cased(s@),
{
    let parts = split_whitespace(s);
    let mut caps: Vec<String> = Vec::new();
    let mut i: usize = 0;
    while i < parts.len()
        invariant
            i <= parts.len(),
            caps.len() == i,
            forall|j: int| 0 <= j < i ==> (#[trigger] caps[j])@ == capitalized(parts[j]@),
        decreases parts.len() - i,
    {
        caps.push(capitalize(parts[i].as_str()));
        i += 1;
    }
    proof {
        assert(texts(caps@) =~= capitalized_all(texts(parts@)));
    }
    join_from(&caps, 0, " ")
}

} // verus!
