//! Small utilities: file-existence probing and string helpers.

use vstd::prelude::*;

verus! {

/// The sequence of characters that `str::to_uppercase` yields for `s`.
/// The Unicode uppercase mapping depends on the characters alone.
pub uninterp spec fn upper_of(s: Seq<char>) -> Seq<char>;

/// Whether `c` has the Unicode `White_Space` property, the set of
/// characters that trimming removes from the ends of a string.
pub open spec fn is_white(c: char) -> bool {
    c == ' ' || c == '\t' || c == '\n' || c == '\u{b}' || c == '\u{c}' || c == '\r'
        || c == '\u{85}' || c == '\u{a0}' || c == '\u{1680}'
        || ('\u{2000}' <= c && c <= '\u{200a}')
        || c == '\u{2028}' || c == '\u{2029}' || c == '\u{202f}' || c == '\u{205f}'
        || c == '\u{3000}'
}

/// `s` without its maximal prefix of whitespace characters.
pub open spec fn trim_front(s: Seq<char>) -> Seq<char>
    decreases s.len(),
{
    if s.len() > 0 && is_white(s[0]) {
        trim_front(s.skip(1))
    } else {
        s
    }
}

/// `s` without its maximal suffix of whitespace characters.
pub open spec fn trim_back(s: Seq<char>) -> Seq<char>
    decreases s.len(),
{
    if s.len() > 0 && is_white(s[s.len() - 1]) {
        trim_back(s.drop_last())
    } else {
        s
    }
}

/// `s` with whitespace removed from both ends.
pub open spec fn trimmed_of(s: Seq<char>) -> Seq<char> {
    trim_back(trim_front(s))
}

/// Relies on str::to_uppercase: the result depends on the characters of the
/// input alone; an empty string stays empty.
#[verifier::external_body]
pub fn to_uppercase(input: &str) -> (r: String)
    ensures
        r@ == upper_of(input@),
        input@.len() == 0 ==> r@.len() == 0,
{
    input.to_uppercase()
}

/// Whether `c` has the Unicode `White_Space` property.
fn is_white_char(c: char) -> (r: bool)
    ensures
        r == is_white(c),
{
    c == ' ' || c == '\t' || c == '\n' || c == '\u{b}' || c == '\u{c}' || c == '\r'
        || c == '\u{85}' || c == '\u{a0}' || c == '\u{1680}'
        || ('\u{2000}' <= c && c <= '\u{200a}')
        || c == '\u{2028}' || c == '\u{2029}' || c == '\u{202f}' || c == '\u{205f}'
        || c == '\u{3000}'
}

/// Removes leading and trailing whitespace from a string.
pub fn trim_string(input: &str) -> (r: String)
    ensures
        r@ == trimmed_of(input@),
        r@.len() <= input@.len(),
{
    let n = input.unicode_len();
    let mut start: usize = 0;
    proof {
        assert(input@.skip(0) =~= input@);
    }
    while start < n && is_white_char(input.get_char(start))
        invariant
            start <= n,
            n == input@.len(),
            trim_front(input@) == trim_front(input@.skip(start as int)),
        decreases n - start,
    {
        proof {
            assert(input@.skip(start as int).skip(1) =~= input@.skip(start as int + 1));
        }
        start = start + 1;
    }
    proof {
        assert(trim_front(input@.skip(start as int)) =~= input@.skip(start as int));
    }
    let mut end: usize = n;
    proof {
        assert(input@.skip(start as int) =~= input@.subrange(start as int, n as int));
    }
    while end > start && is_white_char(input.get_char(end - 1))
        invariant
            start <= end <= n,
            n == input@.len(),
            trim_front(input@) == input@.skip(start as int),
            trim_back(input@.skip(start as int)) == trim_back(
                input@.subrange(start as int, end as int),
            ),
        decreases end,
    {
        proof {
            assert(input@.subrange(start as int, end as int).drop_last() =~= input@.subrange(
                start as int,
                end as int - 1,
            ));
        }
        end = end - 1;
    }
    proof {
        assert(trim_back(input@.subrange(start as int, end as int)) =~= input@.subrange(
            start as int,
            end as int,
        ));
    }
    let piece = input.substring_char(start, end);
    String::from_str(piece)
}

/// Relies on std::path::Path::exists: whether the path refers to an entity
/// reachable on disk at the moment of the call; nothing is promised of the
/// answer, which depends on the state of the disk.
#[verifier::external_body]
pub fn file_exists(file_path: &str) -> bool {
    std::path::Path::new(file_path).exists()
}

} // verus!
