//! Character-level string building, and the escaped (`Debug`) forms of
//! strings and characters, which come from `core::fmt`.
use vstd::prelude::*;

verus! {

/// `String::push` appends one character.
pub assume_specification[ String::push ](s: &mut String, ch: char)
    ensures
        final(s)@ == old(s)@.push(ch),
;

/// Collects the characters of `s`.
pub fn chars_of(s: &str) -> (v: Vec<char>)
    ensures
        v@ == s@,
{
    let mut v: Vec<char> = Vec::new();
    for c in it: s.chars()
        invariant
            v@ == it.seq().take(it.index@ as int),
            it.seq() == s@,
    {
        v.push(c);
    }
    v
}

/// Appends `chars[lo..hi]` to `out`.
pub fn push_chars(out: &mut String, chars: &Vec<char>, lo: usize, hi: usize)
    requires
        lo <= hi <= chars.len(),
    ensures
        final(out)@ == old(out)@ + chars@.subrange(lo as int, hi as int),
{
    let mut i = lo;
    while i < hi
        invariant
            lo <= i <= hi <= chars.len(),
            out@ == old(out)@ + chars@.subrange(lo as int, i as int),
        decreases hi - i,
    {
        out.push(chars[i]);
        assert(chars@.subrange(lo as int, i + 1) =~= chars@.subrange(lo as int, i as int).push(
            chars@[i as int],
        ));
        i = i + 1;
    }
}

/// Copies `chars[lo..hi]` into a new vector.
pub fn sub_chars(chars: &Vec<char>, lo: usize, hi: usize) -> (r: Vec<char>)
    requires
        lo <= hi <= chars.len(),
    ensures
        r@ == chars@.subrange(lo as int, hi as int),
{
    let mut r: Vec<char> = Vec::new();
    let mut i = lo;
    while i < hi
        invariant
            lo <= i <= hi <= chars.len(),
            r@ == chars@.subrange(lo as int, i as int),
        decreases hi - i,
    {
        r.push(chars[i]);
        assert(chars@.subrange(lo as int, i + 1) =~= chars@.subrange(lo as int, i as int).push(
            chars@[i as int],
        ));
        i = i + 1;
    }
    r
}

/// What `<str as Debug>::fmt` writes for the string `s`: `s` in double
/// quotes, with quotes, backslashes and non-printable characters escaped.
pub uninterp spec fn str_debug_text(s: Seq<char>) -> Seq<char>;

/// What `<str as Debug>::fmt` writes for the string `s` under the `#`
/// (pretty) flag.
pub uninterp spec fn str_pretty_debug_text(s: Seq<char>) -> Seq<char>;

/// What `<char as Debug>::fmt` writes for `c`: `c` in single quotes, escaped.
pub uninterp spec fn char_debug_text(c: char) -> Seq<char>;

/// What `<char as Debug>::fmt` writes for `c` under the `#` (pretty) flag.
pub uninterp spec fn char_pretty_debug_text(c: char) -> Seq<char>;

/// Calls `<str as Debug>::fmt` through `format!("{:?}")`; the result is the
/// named escaped form of `s`, which depends on `s` alone.
#[verifier::external_body]
pub(crate) fn str_debug(s: &str) -> (r: String)
    ensures
        r@ == str_debug_text(s@),
{
    format!("{:?}", s)
}

/// Calls `<str as Debug>::fmt` with the `#` flag through `format!("{:#?}")`;
/// the result is named, and depends on `s` alone.
#[verifier::external_body]
pub(crate) fn str_pretty_debug(s: &str) -> (r: String)
    ensures
        r@ == str_pretty_debug_text(s@),
{
    format!("{:#?}", s)
}

/// Calls `<char as Debug>::fmt` through `format!("{:?}")`; the result is
/// named, and depends on `c` alone.
#[verifier::external_body]
pub(crate) fn char_debug(c: char) -> (r: String)
    ensures
        r@ == char_debug_text(c),
{
    format!("{:?}", c)
}

/// Calls `<char as Debug>::fmt` with the `#` flag through
/// `format!("{:#?}")`; the result is named, and depends on `c` alone.
#[verifier::external_body]
pub(crate) fn char_pretty_debug(c: char) -> (r: String)
    ensures
        r@ == char_pretty_debug_text(c),
{
    format!("{:#?}", c)
}

/// A string holding the characters of `v`.
pub fn string_of_chars(v: &Vec<char>) -> (r: String)
    ensures
        r@ == v@,
{
    let mut r = String::new();
    push_chars(&mut r, v, 0, v.len());
    assert(v@.subrange(0, v@.len() as int) =~= v@);
    r
}

/// A copy of `s`.
pub fn string_of_str(s: &str) -> (r: String)
    ensures
        r@ == s@,
{
    let v = chars_of(s);
    string_of_chars(&v)
}

} // verus!
