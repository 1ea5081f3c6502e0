use vstd::prelude::*;

verus! {

/// Relies on String::push: appends exactly one character at the end of the
/// string.
#[verifier::external_body]
pub fn push_char(s: &mut String, c: char)
    ensures
        final(s)@ == old(s)@.push(c),
{
    s.push(c);
}

/// Relies on str::chars: iterates the characters of the string in order, so
/// collecting them gives a vector whose contents are the string's view. A
/// vector never holds more than isize::MAX bytes and a char occupies four, so
/// the length is bounded.
#[verifier::external_body]
pub fn str_to_chars(s: &str) -> (r: Vec<char>)
    ensures
        r@ == s@,
        4 * r@.len() <= isize::MAX as int,
{
    s.chars().collect()
}

/// Builds the one-character string holding `c`.
pub fn char_string(c: char) -> (r: String)
    ensures
        r@ == seq![c],
{
    let mut s = String::new();
    push_char(&mut s, c);
    proof {
        assert(s@ =~= seq![c]);
    }
    s
}

} // verus!
