use vstd::prelude::*;

verus! {

/// The characters with the Unicode `White_Space` property: the ASCII
/// whitespace characters together with NEL, NBSP, the Ogham space mark, the
/// typographic spaces, the line and paragraph separators, and the narrow,
/// medium-mathematical and ideographic spaces.
pub open spec fn is_white(c: char) -> bool {
    ||| c == ' '
    ||| c == '\t'
    ||| c == '\n'
    ||| c == '\r'
    ||| c == '\u{0B}'
    ||| c == '\u{0C}'
    ||| c == '\u{85}'
    ||| c == '\u{A0}'
    ||| c == '\u{1680}'
    ||| ('\u{2000}' <= c && c <= '\u{200A}')
    ||| c == '\u{2028}'
    ||| c == '\u{2029}'
    ||| c == '\u{202F}'
    ||| c == '\u{205F}'
    ||| c == '\u{3000}'
}

/// Decides whether a character is whitespace, in the sense of the Unicode
/// `White_Space` property.
pub fn is_whitespace_char(c: char) -> (r: bool)
    ensures
        r == is_white(c),
{
    c == ' ' || c == '\t' || c == '\n' || c == '\r' || c == '\u{0B}' || c == '\u{0C}'
        || c == '\u{85}' || c == '\u{A0}' || c == '\u{1680}'
        || ('\u{2000}' <= c && c <= '\u{200A}') || c == '\u{2028}' || c == '\u{2029}'
        || c == '\u{202F}' || c == '\u{205F}' || c == '\u{3000}'
}

/// Whether a character outside the ASCII range has the Unicode `Alphabetic`
/// property. The property is a large Unicode table, so it is left
/// uninterpreted; `char_is_alphabetic` is the one function that decides it.
pub uninterp spec fn unicode_alphabetic(c: char) -> bool;

/// Whether a character has the Unicode `Alphabetic` property. On the ASCII
/// range the property holds exactly of the letters; outside it, it is the
/// uninterpreted `unicode_alphabetic`.
pub open spec fn is_alpha(c: char) -> bool {
    if (c as u32) < 128 {
        ('a' <= c && c <= 'z') || ('A' <= c && c <= 'Z')
    } else {
        unicode_alphabetic(c)
    }
}

/// Relies on char::is_alphabetic: true exactly of the characters with the
/// Unicode `Alphabetic` property, a pure function of the character; on ASCII
/// those are precisely the letters.
#[verifier::external_body]
pub fn char_is_alphabetic(c: char) -> (r: bool)
    ensures
        r == is_alpha(c),
        (c as u32) >= 128 ==> r == unicode_alphabetic(c),
{
    c.is_alphabetic()
}

/// The ASCII decimal digits.
pub open spec fn is_digit(c: char) -> bool {
    '0' <= c && c <= '9'
}

/// Decides whether a character is an ASCII decimal digit.
pub fn is_digit_char(c: char) -> (r: bool)
    ensures
        r == is_digit(c),
{
    '0' <= c && c <= '9'
}

/// The numeric value of an ASCII decimal digit.
pub open spec fn digit_value(c: char) -> int {
    c as int - '0' as int
}

} // verus!
