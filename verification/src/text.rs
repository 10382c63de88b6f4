//! Conversions between `String` and the scanner's character buffer.

use vstd::prelude::*;
use vstd::std_specs::iter::IteratorSpec;

verus! {

/// `String::push` appends one character to the end of the string and
/// changes nothing else. This is taken from the standard library's
/// documentation, not proved.
pub assume_specification[ std::string::String::push ](s: &mut std::string::String, ch: char)
    ensures
        final(s)@ == old(s)@.push(ch),
;

/// The characters of `s`, in order, as an indexable buffer.
pub fn to_chars(s: &str) -> (content: Vec<char>)
    ensures
        content@ == s@,
{
    let mut content: Vec<char> = Vec::new();
    let mut chars = s.chars();
    loop
        invariant
            content@ + chars.remaining() == s@,
            chars.decrease() is Some,
        ensures
            content@ == s@,
        decreases chars.decrease()->0,
    {
        match chars.next() {
            Some(c) => {
                content.push(c);
            },
            None => {
                assert(content@ + chars.remaining() =~= content@);
                break ;
            },
        }
    }
    content
}

/// The characters of `content` from `from` up to, not including, `to`, as a string.
pub fn to_text(content: &Vec<char>, from: usize, to: usize) -> (text: String)
    requires
        from <= to <= content@.len(),
    ensures
        text@ == content@.subrange(from as int, to as int),
{
    let mut text = String::new();
    let mut i: usize = from;
    while i < to
        invariant
            from <= i <= to <= content@.len(),
            text@ == content@.subrange(from as int, i as int),
        decreases to - i,
    {
        text.push(content[i]);
        i += 1;
    }
    text
}

/// Whether `c` is an ASCII decimal digit.
pub fn is_digit(c: char) -> (b: bool)
    ensures
        b == crate::grammar::is_digit(c),
{
    match c {
        '0'..='9' => true,
        _ => false,
    }
}

/// Whether `c` is an ASCII letter or the underscore.
pub fn is_letter(c: char) -> (b: bool)
    ensures
        b == crate::grammar::is_letter(c),
{
    match c {
        'a'..='z' | 'A'..='Z' | '_' => true,
        _ => false,
    }
}

} // verus!
