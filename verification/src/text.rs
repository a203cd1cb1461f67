//! Character classes and scanning over character sequences.

use vstd::prelude::*;

verus! {

/// Unicode `White_Space`, as `char::is_whitespace` decides it.
pub open spec fn is_whitespace(c: char) -> bool {
    let u = c as u32;
    ||| u == 0x20
    ||| 0x09 <= u <= 0x0d
    ||| u == 0x85
    ||| u == 0xa0
    ||| u == 0x1680
    ||| 0x2000 <= u <= 0x200a
    ||| u == 0x2028
    ||| u == 0x2029
    ||| u == 0x202f
    ||| u == 0x205f
    ||| u == 0x3000
}

/// ASCII whitespace, as `char::is_ascii_whitespace` decides it
/// (space, tab, line feed, form feed and carriage return; not the vertical tab).
pub open spec fn is_ascii_whitespace(c: char) -> bool {
    let u = c as u32;
    u == 0x20 || u == 0x09 || u == 0x0a || u == 0x0c || u == 0x0d
}

/// Decides `is_whitespace`.
pub fn char_is_whitespace(c: char) -> (b: bool)
    ensures
        b == is_whitespace(c),
{
    let u = c as u32;
    u == 0x20 || (0x09 <= u && u <= 0x0d) || u == 0x85 || u == 0xa0 || u == 0x1680 || (0x2000 <= u
        && u <= 0x200a) || u == 0x2028 || u == 0x2029 || u == 0x202f || u == 0x205f || u == 0x3000
}

/// Decides `is_ascii_whitespace`.
pub fn char_is_ascii_whitespace(c: char) -> (b: bool)
    ensures
        b == is_ascii_whitespace(c),
{
    let u = c as u32;
    u == 0x20 || u == 0x09 || u == 0x0a || u == 0x0c || u == 0x0d
}

/// What a scan stops at.
#[derive(Clone, Copy, PartialEq, Eq, Structural)]
pub enum Stop {
    /// The first character that is not whitespace.
    NonWhitespace,
    /// The first occurrence of the character.
    At(char),
    /// The first character that ends a bare word of a template:
    /// ASCII whitespace, a single quote or an opening brace.
    WordEnd,
}

pub open spec fn stops(stop: Stop, c: char) -> bool {
    match stop {
        Stop::NonWhitespace => !is_whitespace(c),
        Stop::At(x) => c == x,
        Stop::WordEnd => is_ascii_whitespace(c) || c == '\'' || c == '{',
    }
}

/// The index of the first character of `s` at which `stop` holds, or `s.len()` if none.
pub open spec fn first_index(s: Seq<char>, stop: Stop) -> nat
    decreases s.len(),
{
    if s.len() == 0 {
        0
    } else if stops(stop, s[0]) {
        0
    } else {
        1 + first_index(s.drop_first(), stop)
    }
}

/// `s` without its leading whitespace.
pub open spec fn trim_start(s: Seq<char>) -> Seq<char> {
    s.skip(first_index(s, Stop::NonWhitespace) as int)
}

/// `first_index` is the least index at which the stop holds.
pub proof fn lemma_first_index(s: Seq<char>, stop: Stop)
    ensures
        first_index(s, stop) <= s.len(),
        forall|j: int| 0 <= j < first_index(s, stop) ==> !stops(stop, #[trigger] s[j]),
        first_index(s, stop) < s.len() ==> stops(stop, s[first_index(s, stop) as int]),
    decreases s.len(),
{
    if s.len() > 0 && !stops(stop, s[0]) {
        lemma_first_index(s.drop_first(), stop);
        assert forall|j: int| 0 <= j < first_index(s, stop) implies !stops(stop, #[trigger] s[j]) by {
            if j > 0 {
                assert(s[j] == s.drop_first()[j - 1]);
            }
        }
    }
}

/// An index that has the properties of `first_index` is `first_index`.
pub proof fn lemma_first_index_is(s: Seq<char>, stop: Stop, i: int)
    requires
        0 <= i <= s.len(),
        forall|j: int| 0 <= j < i ==> !stops(stop, #[trigger] s[j]),
        i < s.len() ==> stops(stop, s[i]),
    ensures
        first_index(s, stop) == i,
{
    lemma_first_index(s, stop);
    let f = first_index(s, stop) as int;
    if f < i {
        assert(!stops(stop, s[f]));
    } else if i < f {
        assert(!stops(stop, s[i]));
    }
}

/// The index of the first character of `s` at which `stop` holds, or its length if none.
pub fn scan(s: &str, stop: Stop) -> (r: usize)
    ensures
        r == first_index(s@, stop),
{
    let n = s.unicode_len();
    let mut i: usize = 0;
    while i < n
        invariant
            n == s@.len(),
            i <= n,
            forall|j: int| 0 <= j < i ==> !stops(stop, #[trigger] s@[j]),
        decreases n - i,
    {
        let c = s.get_char(i);
        let hit = match stop {
            Stop::NonWhitespace => !char_is_whitespace(c),
            Stop::At(x) => c == x,
            Stop::WordEnd => char_is_ascii_whitespace(c) || c == '\'' || c == '{',
        };
        if hit {
            proof { lemma_first_index_is(s@, stop, i as int); }
            return i;
        }
        i += 1;
    }
    proof { lemma_first_index_is(s@, stop, i as int); }
    i
}


/// `String::from_utf8` (std): succeeds exactly on valid UTF-8, and the string
/// then holds the characters the bytes encode.
pub assume_specification[ String::from_utf8 ](vec: Vec<u8>) -> (r: Result<String, std::string::FromUtf8Error>)
    ensures
        r is Ok <==> vstd::utf8::valid_utf8(vec@),
        r matches Ok(s) ==> s@ == vstd::utf8::decode_utf8(vec@),
;

/// `std::string::FromUtf8Error`, the error of `String::from_utf8`, carried as
/// an opaque value.
#[verifier::external_type_specification]
#[verifier::external_body]
pub struct ExFromUtf8Error(std::string::FromUtf8Error);

/// The text that `Debug` gives for the string taken as an OS string: quoted,
/// with special characters escaped.
pub uninterp spec fn os_debug_repr(s: Seq<char>) -> Seq<char>;

/// Formats the string with `Debug` of `std::path::Path` (which is `Debug` of
/// `OsStr`); claims only that the result is a function of the text.
#[verifier::external_body]
pub(crate) fn debug_quote(s: &str) -> (r: String)
    ensures
        r@ == os_debug_repr(s@),
{
    format!("{:?}", std::path::Path::new(s))
}

/// All characters are whitespace (so the text trims to nothing).
pub open spec fn all_whitespace(s: Seq<char>) -> bool {
    forall|i: int| 0 <= i < s.len() ==> is_whitespace(#[trigger] s[i])
}

/// Decides `all_whitespace`: `s.trim().is_empty()`.
pub fn trims_to_empty(s: &str) -> (r: bool)
    ensures
        r == all_whitespace(s@),
{
    proof {
        lemma_first_index(s@, Stop::NonWhitespace);
    }
    let k = scan(s, Stop::NonWhitespace);
    let n = s.unicode_len();
    if k < n {
        assert(!is_whitespace(s@[k as int]));
    }
    k == n
}

} // verus!
