//! Character classes and letter case.
//!
//! For the characters of ASCII everything is defined and computed here. For
//! all other characters the answer comes from the Unicode tables of the
//! standard library, and is named here, not defined.

use vstd::prelude::*;

verus! {

/// What `char::is_whitespace` returns for `c`: whether `c` carries the
/// Unicode `White_Space` property.
pub uninterp spec fn unicode_white_space(c: char) -> bool;

/// What `char::is_alphanumeric` returns for `c`: whether Unicode counts `c`
/// as a letter or a number.
pub uninterp spec fn unicode_alphanumeric(c: char) -> bool;

/// What `str::to_lowercase` returns for a text with the characters `s`: its
/// lowercase form under the Unicode case mapping.
pub uninterp spec fn unicode_lowercase(s: Seq<char>) -> Seq<char>;

/// Taken on trust of `char::is_whitespace`: what it returns depends on the
/// character alone, and is what `unicode_white_space` names. Nothing more is
/// claimed. The library calls it for characters outside ASCII only.
pub assume_specification[ char::is_whitespace ](c: char) -> (b: bool)
    ensures
        b == unicode_white_space(c),
;

/// Taken on trust of `char::is_alphanumeric`: what it returns depends on the
/// character alone, and is what `unicode_alphanumeric` names. Nothing more is
/// claimed. The library calls it for characters outside ASCII only.
pub assume_specification[ char::is_alphanumeric ](c: char) -> (b: bool)
    ensures
        b == unicode_alphanumeric(c),
;

/// Taken on trust of `str::to_lowercase`: the text it returns depends on the
/// characters of its argument alone, and is what `unicode_lowercase` names.
/// Nothing more is claimed. The library calls it for texts that hold a
/// character outside ASCII only.
pub assume_specification[ str::to_lowercase ](s: &str) -> (r: String)
    ensures
        r@ == unicode_lowercase(s@),
;

/// Taken on trust of `String::push`: the string afterwards is the string
/// before with the character added at its end.
pub assume_specification[ String::push ](s: &mut String, ch: char)
    ensures
        final(s)@ == old(s)@.push(ch),
;

/// Whether `c` is a character of ASCII.
pub open spec fn is_ascii(c: char) -> bool {
    c <= '\x7f'
}

/// Whitespace: in ASCII the space, the tab, the line feed, the vertical tab,
/// the form feed and the carriage return; outside ASCII whatever carries the
/// Unicode property.
pub open spec fn is_ws(c: char) -> bool {
    if is_ascii(c) {
        c == ' ' || ('\t' <= c && c <= '\r')
    } else {
        unicode_white_space(c)
    }
}

/// Letters and digits: in ASCII `a` to `z`, `A` to `Z` and `0` to `9`;
/// outside ASCII whatever Unicode counts as a letter or a number.
pub open spec fn is_alnum(c: char) -> bool {
    if is_ascii(c) {
        ('a' <= c && c <= 'z') || ('A' <= c && c <= 'Z') || ('0' <= c && c <= '9')
    } else {
        unicode_alphanumeric(c)
    }
}

/// Whether `c` is whitespace.
pub fn is_space(c: char) -> (b: bool)
    ensures
        b == is_ws(c),
{
    if c <= '\x7f' {
        c == ' ' || ('\t' <= c && c <= '\r')
    } else {
        c.is_whitespace()
    }
}

/// Whether `c` is a letter or a digit.
pub fn is_letter_or_digit(c: char) -> (b: bool)
    ensures
        b == is_alnum(c),
{
    if c <= '\x7f' {
        ('a' <= c && c <= 'z') || ('A' <= c && c <= 'Z') || ('0' <= c && c <= '9')
    } else {
        c.is_alphanumeric()
    }
}

/// The lowercase form of a character of ASCII; other characters stay.
pub open spec fn ascii_lower(c: char) -> char {
    if 'A' <= c && c <= 'Z' {
        ((c as u8) + 32) as char
    } else {
        c
    }
}

/// Whether `s` holds characters of ASCII only.
pub open spec fn all_ascii(s: Seq<char>) -> bool {
    forall|i: int| 0 <= i < s.len() ==> is_ascii(#[trigger] s[i])
}

/// The lowercase form of a text: where it is all ASCII, each of `A` to `Z` is
/// replaced by its small letter; otherwise the Unicode case mapping decides.
pub open spec fn lowercase_of(s: Seq<char>) -> Seq<char> {
    if all_ascii(s) {
        Seq::new(s.len(), |i: int| ascii_lower(s[i]))
    } else {
        unicode_lowercase(s)
    }
}

/// The lowercase form of a character of ASCII; other characters stay.
pub fn lower(c: char) -> (r: char)
    ensures
        r == ascii_lower(c),
{
    if 'A' <= c && c <= 'Z' {
        ((c as u8) + 32) as char
    } else {
        c
    }
}

/// The lowercase form of `s`.
pub fn lowercase(s: &str) -> (r: String)
    ensures
        r@ == lowercase_of(s@),
{
    let mut out = String::new();
    for c in it: s.chars()
        invariant
            it.seq() == s@,
            all_ascii(s@.take(it.index() as int)),
            out@ == Seq::new(it.index() as nat, |i: int| ascii_lower(s@[i])),
    {
        if c > '\x7f' {
            return s.to_lowercase();
        }
        out.push(lower(c));
    }
    assert(s@.take(s@.len() as int) =~= s@);
    out
}

} // verus!
