//! Text helpers: whitespace, searching, and quoting for messages.

use vstd::prelude::*;
use vstd::string::*;

verus! {

/// A result with its error message taken as text.
pub open spec fn outcome_text<T>(r: Result<T, String>) -> Result<T, Seq<char>> {
    match r {
        Ok(value) => Ok(value),
        Err(message) => Err(message@),
    }
}

/// The characters with the Unicode property `White_Space`.
pub open spec fn white_space(c: char) -> bool {
    ||| 0x9 <= c as u32 <= 0xd
    ||| c as u32 == 0x20
    ||| c as u32 == 0x85
    ||| c as u32 == 0xa0
    ||| c as u32 == 0x1680
    ||| 0x2000 <= c as u32 <= 0x200a
    ||| c as u32 == 0x2028
    ||| c as u32 == 0x2029
    ||| c as u32 == 0x202f
    ||| c as u32 == 0x205f
    ||| c as u32 == 0x3000
}

/// `s` without its leading and trailing white space.
pub open spec fn trimmed(s: Seq<char>) -> Seq<char>
    decreases s.len(),
{
    if s.len() > 0 && white_space(s.first()) {
        trimmed(s.drop_first())
    } else if s.len() > 0 && white_space(s.last()) {
        trimmed(s.drop_last())
    } else {
        s
    }
}

/// Where only white space stands outside `s[i..j]`, and that range neither
/// starts nor ends with it, the range is what trimming leaves.
proof fn lemma_trimmed_range(s: Seq<char>, i: int, j: int)
    requires
        0 <= i <= j <= s.len(),
        forall|k: int| 0 <= k < i ==> white_space(#[trigger] s[k]),
        forall|k: int| j <= k < s.len() ==> white_space(#[trigger] s[k]),
        i < j ==> !white_space(s[i]) && !white_space(s[j - 1]),
    ensures
        trimmed(s) == s.subrange(i, j),
    decreases s.len(),
{
    if s.len() > 0 && white_space(s.first()) {
        let rest = s.drop_first();
        if i > 0 {
            lemma_trimmed_range(rest, i - 1, j - 1);
            assert(rest.subrange(i - 1, j - 1) =~= s.subrange(i, j));
        } else {
            assert(j == 0);
            lemma_trimmed_range(rest, 0, 0);
            assert(rest.subrange(0, 0) =~= s.subrange(0, 0));
        }
    } else if s.len() > 0 && white_space(s.last()) {
        let rest = s.drop_last();
        lemma_trimmed_range(rest, i, j);
        assert(rest.subrange(i, j) =~= s.subrange(i, j));
    } else {
        assert(s.subrange(i, j) =~= s);
    }
}

/// `needle` stands in `s` at place `at`.
pub open spec fn occurs_at(s: Seq<char>, needle: Seq<char>, at: int) -> bool {
    0 <= at && at + needle.len() <= s.len() && s.subrange(at, at + needle.len()) == needle
}

/// `s` with the first occurrence of `from` replaced by `to`; `s` itself where
/// `from` does not occur.
pub open spec fn is_first_replaced(
    r: Seq<char>,
    s: Seq<char>,
    from: Seq<char>,
    to: Seq<char>,
) -> bool {
    ||| r == s && forall|at: int| !#[trigger] occurs_at(s, from, at)
    ||| exists|at: int| #[trigger]
        occurs_at(s, from, at) && (forall|k: int| k < at ==> !#[trigger] occurs_at(s, from, k))
            && r == s.take(at) + to + s.skip(at + from.len())
}

/// How the `Debug` form of a string shows `text`: in double quotes, with
/// escapes.
pub uninterp spec fn quoted(text: Seq<char>) -> Seq<char>;

/// The `Debug` form of a string, from `std::format`.
///
/// The result is named by [`quoted`]; which characters are escaped, and how, is
/// not stated.
#[verifier::external_body]
pub(crate) fn quote(s: &str) -> (r: String)
    ensures
        r@ == quoted(s@),
{
    format!("{s:?}")
}

/// Whether `c` is white space.
pub fn is_white_space(c: char) -> (r: bool)
    ensures
        r == white_space(c),
{
    let code: u32 = c as u32;
    (0x9 <= code && code <= 0xd) || code == 0x20 || code == 0x85 || code == 0xa0 || code == 0x1680
        || (0x2000 <= code && code <= 0x200a) || code == 0x2028 || code == 0x2029 || code == 0x202f
        || code == 0x205f || code == 0x3000
}

/// The characters of a string.
pub(crate) fn chars_of(s: &str) -> (v: Vec<char>)
    ensures
        v@ == s@,
{
    let mut v: Vec<char> = Vec::new();
    for c in it: s.chars()
        invariant
            v@ == it.seq().take(it.index() as int),
            it.seq() == s@,
    {
        v.push(c);
    }
    v
}

/// `s` without its leading and trailing white space.
pub fn trim(s: &str) -> (r: &str)
    ensures
        r@ == trimmed(s@),
{
    let chars = chars_of(s);
    let mut i: usize = 0;
    while i < chars.len() && is_white_space(chars[i])
        invariant
            i <= chars.len(),
            forall|k: int| 0 <= k < i ==> white_space(#[trigger] chars@[k]),
        decreases chars.len() - i,
    {
        i += 1;
    }
    let mut j: usize = chars.len();
    while i < j && is_white_space(chars[j - 1])
        invariant
            i <= j <= chars.len(),
            forall|k: int| j <= k < chars.len() ==> white_space(#[trigger] chars@[k]),
        decreases j,
    {
        j -= 1;
    }
    let r = s.substring_char(i, j);
    proof {
        lemma_trimmed_range(s@, i as int, j as int);
    }
    r
}

/// The first place at which `needle` stands in `s`.
pub(crate) fn find(s: &Vec<char>, needle: &Vec<char>) -> (r: Option<usize>)
    ensures
        match r {
            Some(at) => occurs_at(s@, needle@, at as int) && forall|k: int|
                k < at ==> !#[trigger] occurs_at(s@, needle@, k),
            None => forall|k: int| !#[trigger] occurs_at(s@, needle@, k),
        },
{
    if s.len() < needle.len() {
        return None;
    }
    let mut at: usize = 0;
    while at <= s.len() - needle.len()
        invariant
            needle.len() <= s.len(),
            at <= s.len() - needle.len() + 1,
            forall|k: int| k < at ==> !#[trigger] occurs_at(s@, needle@, k),
        decreases s.len() - at,
    {
        let mut n: usize = 0;
        while n < needle.len() && s[at + n] == needle[n]
            invariant
                n <= needle.len(),
                at + needle.len() <= s.len(),
                forall|k: int| 0 <= k < n ==> s@[at + k] == #[trigger] needle@[k],
            decreases needle.len() - n,
        {
            n += 1;
        }
        if n == needle.len() {
            assert(s@.subrange(at as int, at + needle.len()) =~= needle@);
            return Some(at);
        }
        assert(!occurs_at(s@, needle@, at as int)) by {
            if occurs_at(s@, needle@, at as int) {
                assert(s@.subrange(at as int, at + needle.len())[n as int] == needle@[n as int]);
            }
        }
        at += 1;
    }
    None
}

/// `s` with the first occurrence of `from` replaced by `to`.
pub fn replace_first(s: &str, from: &str, to: &str) -> (r: String)
    ensures
        is_first_replaced(r@, s@, from@, to@),
{
    let chars = chars_of(s);
    let pattern = chars_of(from);
    match find(&chars, &pattern) {
        Some(at) => {
            assert(at + pattern.len() <= chars.len());
            let head = s.substring_char(0, at);
            let tail = s.substring_char(at + pattern.len(), chars.len());
            let r = head.to_string().concat(to).concat(tail);
            assert(r@ =~= s@.take(at as int) + to@ + s@.skip(at + from@.len()));
            r
        },
        None => s.to_string(),
    }
}

/// What follows `prefix` in `s`, where `s` starts with it.
pub fn strip_prefix<'a>(s: &'a str, prefix: &str) -> (r: Option<&'a str>)
    ensures
        match r {
            Some(rest) => s@ == prefix@ + rest@,
            None => !prefix@.is_prefix_of(s@),
        },
{
    let chars = chars_of(s);
    let start = chars_of(prefix);
    if chars.len() < start.len() {
        return None;
    }
    let mut n: usize = 0;
    while n < start.len()
        invariant
            n <= start.len() <= chars.len(),
            chars@ == s@,
            start@ == prefix@,
            forall|k: int| 0 <= k < n ==> chars@[k] == #[trigger] start@[k],
        decreases start.len() - n,
    {
        if chars[n] != start[n] {
            return None;
        }
        n += 1;
    }
    let rest = s.substring_char(start.len(), chars.len());
    assert(s@ =~= prefix@ + rest@);
    Some(rest)
}

/// An ASCII letter or digit.
pub open spec fn ascii_alphanumeric(c: char) -> bool {
    ||| '0' <= c <= '9'
    ||| 'a' <= c <= 'z'
    ||| 'A' <= c <= 'Z'
}

/// Whether `c` is an ASCII letter or digit.
pub fn is_ascii_alphanumeric(c: char) -> (r: bool)
    ensures
        r == ascii_alphanumeric(c),
{
    ('0' <= c && c <= '9') || ('a' <= c && c <= 'z') || ('A' <= c && c <= 'Z')
}

} // verus!
