//! Property names: the spelling of identifiers as CSS names, and the
//! ASCII-case-insensitive comparison by which names are looked up.

use vstd::prelude::*;
use vstd::std_specs::iter::IteratorSpec;

verus! {

/// One character of an identifier as it is spelled in CSS: `_` becomes `-`.
pub open spec fn css_name_char(c: char) -> char {
    if c == '_' {
        '-'
    } else {
        c
    }
}

/// The CSS name of an identifier: the same characters, every `_` written `-`.
pub open spec fn css_name_of_ident(ident: Seq<char>) -> Seq<char> {
    Seq::new(ident.len(), |i: int| css_name_char(ident[i]))
}

/// `String::push` appends the character at the end of the string.
pub assume_specification[ String::push ](s: &mut String, c: char)
    ensures
        final(s)@ == old(s)@.push(c),
;

/// Spells an identifier as a CSS name.
pub fn expand_ident_to_css_name(ident: &str) -> (name: String)
    ensures
        name@ == css_name_of_ident(ident@),
{
    let mut name = String::new();
    for c in it: ident.chars()
        invariant
            it.seq() == ident@,
            name@ == css_name_of_ident(ident@.take(it.index() as int)),
    {
        let css = if c == '_' {
            '-'
        } else {
            c
        };
        name.push(css);
        assert(ident@.take(it.index() + 1).drop_last() == ident@.take(it.index() as int));
    }
    assert(ident@.take(ident@.len() as int) == ident@);
    name
}

/// The lower-case form of an ASCII capital; any other character unchanged.
pub open spec fn ascii_lower_char(c: char) -> char {
    if 'A' <= c && c <= 'Z' {
        ((c as u8) + 32) as char
    } else {
        c
    }
}

/// A name with its ASCII capitals in lower case.
pub open spec fn ascii_lower(name: Seq<char>) -> Seq<char> {
    Seq::new(name.len(), |i: int| ascii_lower_char(name[i]))
}

/// Whether two names are equal apart from the case of their ASCII letters.
pub open spec fn eq_ignoring_ascii_case(a: Seq<char>, b: Seq<char>) -> bool {
    ascii_lower(a) == ascii_lower(b)
}

fn to_ascii_lower_char(c: char) -> (lower: char)
    ensures
        lower == ascii_lower_char(c),
{
    if 'A' <= c && c <= 'Z' {
        ((c as u8) + 32u8) as char
    } else {
        c
    }
}

/// Compares two names without regard to the case of their ASCII letters.
pub fn eq_ignore_ascii_case(a: &str, b: &str) -> (equal: bool)
    ensures
        equal == eq_ignoring_ascii_case(a@, b@),
{
    let mut others = b.chars();
    for c in it: a.chars()
        invariant
            it.seq() == a@,
            it.index() <= b@.len(),
            others.remaining() == b@.skip(it.index() as int),
            forall|j: int|
                0 <= j < it.index() ==> ascii_lower_char(a@[j]) == ascii_lower_char(b@[j]),
    {
        let ghost i = it.index() as int;
        match others.next() {
            None => {
                assert(ascii_lower(a@).len() != ascii_lower(b@).len());
                return false;
            },
            Some(d) => {
                assert(d == b@[i]);
                assert(b@.skip(i).drop_first() == b@.skip(i + 1));
                if to_ascii_lower_char(c) != to_ascii_lower_char(d) {
                    assert(ascii_lower(a@)[i] != ascii_lower(b@)[i]);
                    return false;
                }
            },
        }
    }
    match others.next() {
        None => {
            assert(ascii_lower(a@) =~= ascii_lower(b@));
            true
        },
        Some(_) => {
            assert(ascii_lower(a@).len() != ascii_lower(b@).len());
            false
        },
    }
}

} // verus!
