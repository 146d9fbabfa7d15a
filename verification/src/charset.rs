//! The character classes that a password is drawn from, and their alphabets.
//!
//! Every class has a full alphabet and a distinct one, which leaves out the
//! glyphs that are easily taken for one another.

use vstd::prelude::*;

verus! {

/// One of the five kinds of character that a password may hold.
#[derive(Clone, Copy, Debug, PartialEq, Eq, Structural)]
pub enum CharClass {
    /// `0` to `9`.
    Number,
    /// `a` to `z`.
    Lowercase,
    /// `A` to `Z`.
    Uppercase,
    /// The printable ASCII punctuation.
    Symbol,
    /// The space character.
    Space,
}

/// `c` is one of the glyphs that are easily taken for another:
/// ``i I 1 l o O 0 " ' ` |``.
pub open spec fn is_similar(c: char) -> bool {
    c == 'i' || c == 'I' || c == '1' || c == 'l' || c == 'o' || c == 'O' || c == '0' || c == '"'
        || c == '\'' || c == '`' || c == '|'
}

/// `c` is of the given class.
pub open spec fn in_class(class: CharClass, c: char) -> bool {
    match class {
        CharClass::Number => '0' <= c && c <= '9',
        CharClass::Lowercase => 'a' <= c && c <= 'z',
        CharClass::Uppercase => 'A' <= c && c <= 'Z',
        CharClass::Symbol => ('!' <= c && c <= '/') || (':' <= c && c <= '@') || ('[' <= c && c
            <= '`') || ('{' <= c && c <= '~'),
        CharClass::Space => c == ' ',
    }
}

/// Some character of `text` is of the given class.
pub open spec fn holds_class(text: Seq<char>, class: CharClass) -> bool {
    exists|i: int| 0 <= i < text.len() && in_class(class, #[trigger] text[i])
}

/// No character of `text` is easily taken for another.
pub open spec fn free_of_similar(text: Seq<char>) -> bool {
    forall|i: int| 0 <= i < text.len() ==> !is_similar(#[trigger] text[i])
}

/// The ten digits.
pub open spec fn numbers() -> Seq<char> {
    seq!['0', '1', '2', '3', '4', '5', '6', '7', '8', '9']
}

/// The digits without `0` and `1`.
pub open spec fn distinct_numbers() -> Seq<char> {
    seq!['2', '3', '4', '5', '6', '7', '8', '9']
}

/// The lowercase letters.
pub open spec fn lowercase_letters() -> Seq<char> {
    seq![
        'a', 'b', 'c', 'd', 'e', 'f', 'g', 'h', 'i', 'j', 'k', 'l', 'm', 'n', 'o', 'p', 'q', 'r',
        's', 't', 'u', 'v', 'w', 'x', 'y', 'z',
    ]
}

/// The lowercase letters without `i`, `l` and `o`.
pub open spec fn distinct_lowercase_letters() -> Seq<char> {
    seq![
        'a', 'b', 'c', 'd', 'e', 'f', 'g', 'h', 'j', 'k', 'm', 'n', 'p', 'q', 'r', 's', 't', 'u',
        'v', 'w', 'x', 'y', 'z',
    ]
}

/// The uppercase letters.
pub open spec fn uppercase_letters() -> Seq<char> {
    seq![
        'A', 'B', 'C', 'D', 'E', 'F', 'G', 'H', 'I', 'J', 'K', 'L', 'M', 'N', 'O', 'P', 'Q', 'R',
        'S', 'T', 'U', 'V', 'W', 'X', 'Y', 'Z',
    ]
}

/// The uppercase letters without `I` and `O`.
pub open spec fn distinct_uppercase_letters() -> Seq<char> {
    seq![
        'A', 'B', 'C', 'D', 'E', 'F', 'G', 'H', 'J', 'K', 'L', 'M', 'N', 'P', 'Q', 'R', 'S', 'T',
        'U', 'V', 'W', 'X', 'Y', 'Z',
    ]
}

/// The printable ASCII punctuation.
pub open spec fn symbols() -> Seq<char> {
    seq![
        '!', '"', '#', '$', '%', '&', '\'', '(', ')', '*', '+', ',', '-', '.', '/', ':', ';', '<',
        '=', '>', '?', '@', '[', '\\', ']', '^', '_', '`', '{', '|', '}', '~',
    ]
}

/// The punctuation without `"`, `'`, `` ` `` and `|`.
pub open spec fn distinct_symbols() -> Seq<char> {
    seq![
        '!', '#', '$', '%', '&', '(', ')', '*', '+', ',', '-', '.', '/', ':', ';', '<', '=', '>',
        '?', '@', '[', '\\', ']', '^', '_', '{', '}', '~',
    ]
}

/// The space character alone.
pub open spec fn spaces() -> Seq<char> {
    seq![' ']
}

/// The characters that a class offers, in order: all of them, or only the
/// distinct ones where `exclude_similar` is set.
pub open spec fn alphabet(class: CharClass, exclude_similar: bool) -> Seq<char> {
    match class {
        CharClass::Number => if exclude_similar {
            distinct_numbers()
        } else {
            numbers()
        },
        CharClass::Lowercase => if exclude_similar {
            distinct_lowercase_letters()
        } else {
            lowercase_letters()
        },
        CharClass::Uppercase => if exclude_similar {
            distinct_uppercase_letters()
        } else {
            uppercase_letters()
        },
        CharClass::Symbol => if exclude_similar {
            distinct_symbols()
        } else {
            symbols()
        },
        CharClass::Space => spaces(),
    }
}

/// The full alphabet of a class holds exactly the characters of that class.
pub proof fn lemma_alphabet_is_class(class: CharClass, c: char)
    ensures
        alphabet(class, false).contains(c) <==> in_class(class, c),
{
    let full = alphabet(class, false);
    if full.contains(c) {
        let i = choose|i: int| 0 <= i < full.len() && full[i] == c;
        assert(in_class(class, full[i]));
    }
    if in_class(class, c) {
        let at: int = match class {
            CharClass::Number => c as int - '0' as int,
            CharClass::Lowercase => c as int - 'a' as int,
            CharClass::Uppercase => c as int - 'A' as int,
            CharClass::Symbol => if c <= '/' {
                c as int - '!' as int
            } else if c <= '@' {
                c as int - ':' as int + 15
            } else if c <= '`' {
                c as int - '[' as int + 22
            } else {
                c as int - '{' as int + 28
            },
            CharClass::Space => 0,
        };
        assert(0 <= at < full.len() && full[at] == c);
    }
}

/// The distinct alphabet of a class holds exactly the characters of that
/// class that are not easily taken for another.
pub proof fn lemma_distinct_alphabet(class: CharClass, c: char)
    ensures
        alphabet(class, true).contains(c) <==> in_class(class, c) && !is_similar(c),
{
    let distinct = alphabet(class, true);
    if distinct.contains(c) {
        let i = choose|i: int| 0 <= i < distinct.len() && distinct[i] == c;
        assert(in_class(class, distinct[i]) && !is_similar(distinct[i]));
    }
    if in_class(class, c) && !is_similar(c) {
        let at: int = match class {
            CharClass::Number => c as int - '2' as int,
            CharClass::Lowercase => if c <= 'h' {
                c as int - 'a' as int
            } else if c <= 'k' {
                c as int - 'a' as int - 1
            } else if c <= 'n' {
                c as int - 'a' as int - 2
            } else {
                c as int - 'a' as int - 3
            },
            CharClass::Uppercase => if c <= 'H' {
                c as int - 'A' as int
            } else if c <= 'N' {
                c as int - 'A' as int - 1
            } else {
                c as int - 'A' as int - 2
            },
            CharClass::Symbol => if c <= '!' {
                0
            } else if c <= '&' {
                c as int - '#' as int + 1
            } else if c <= '/' {
                c as int - '(' as int + 5
            } else if c <= '@' {
                c as int - ':' as int + 13
            } else if c <= '_' {
                c as int - '[' as int + 20
            } else if c <= '{' {
                25
            } else {
                c as int - '}' as int + 26
            },
            CharClass::Space => 0,
        };
        assert(0 <= at < distinct.len() && distinct[at] == c);
    }
}

/// No class is left without characters, with or without the similar glyphs.
pub proof fn lemma_alphabet_nonempty(class: CharClass, exclude_similar: bool)
    ensures
        alphabet(class, exclude_similar).len() > 0,
{
}

/// No character is of two classes.
pub proof fn lemma_classes_disjoint(first: CharClass, second: CharClass, c: char)
    requires
        in_class(first, c),
        in_class(second, c),
    ensures
        first == second,
{
}

} // verus!
