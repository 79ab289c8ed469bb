//! Character-level facts about the std string functions that the casing rules use.

use vstd::prelude::*;

verus! {

/// `c` in ASCII upper case: `a`..=`z` become `A`..=`Z`, every other character is kept.
pub open spec fn ascii_upper(c: char) -> char {
    if 'a' <= c && c <= 'z' {
        ((c as u32) - 32) as char
    } else {
        c
    }
}

/// `c` in ASCII lower case: `A`..=`Z` become `a`..=`z`, every other character is kept.
pub open spec fn ascii_lower(c: char) -> char {
    if 'A' <= c && c <= 'Z' {
        ((c as u32) + 32) as char
    } else {
        c
    }
}

/// Whether `c` is an ASCII character.
pub open spec fn is_ascii_char(c: char) -> bool {
    (c as u32) < 128
}

/// Every character of `s` in ASCII upper case.
pub open spec fn upper_all(s: Seq<char>) -> Seq<char> {
    s.map_values(|c: char| ascii_upper(c))
}

/// Every character of `s` in ASCII lower case.
pub open spec fn lower_all(s: Seq<char>) -> Seq<char> {
    s.map_values(|c: char| ascii_lower(c))
}

/// `s` with every occurrence of `from` replaced by `to`.
pub open spec fn replace_char(s: Seq<char>, from: char, to: Seq<char>) -> Seq<char>
    decreases s.len(),
{
    if s.len() == 0 {
        seq![]
    } else {
        (if s[0] == from {
            to
        } else {
            seq![s[0]]
        }) + replace_char(s.drop_first(), from, to)
    }
}

/// Whether `c` has the Unicode `Uppercase` property, as `char::is_uppercase` answers.
pub uninterp spec fn has_uppercase_property(c: char) -> bool;

/// `String::push` appends one character.
pub assume_specification[ String::push ](string: &mut String, ch: char)
    ensures
        final(string)@ == old(string)@.push(ch),
;

/// `String::push_str` appends a string slice.
pub assume_specification[ String::push_str ](string: &mut String, tail: &str)
    ensures
        final(string)@ == old(string)@ + tail@,
;

/// `str::to_ascii_uppercase` maps each character to its ASCII upper case.
pub assume_specification[ str::to_ascii_uppercase ](s: &str) -> (res: String)
    ensures
        res@ == upper_all(s@),
;

/// `str::to_ascii_lowercase` maps each character to its ASCII lower case.
pub assume_specification[ str::to_ascii_lowercase ](s: &str) -> (res: String)
    ensures
        res@ == lower_all(s@),
;

/// `char::to_ascii_uppercase` gives the ASCII upper case of one character.
pub assume_specification[ char::to_ascii_uppercase ](c: &char) -> (res: char)
    ensures
        res == ascii_upper(*c),
;

/// `char::is_uppercase` answers whether the character has the `Uppercase`
/// property; among ASCII characters exactly `A`..=`Z` have it.
pub assume_specification[ char::is_uppercase ](c: char) -> (res: bool)
    ensures
        res == has_uppercase_property(c),
        res == if is_ascii_char(c) {
            'A' <= c && c <= 'Z'
        } else {
            has_uppercase_property(c)
        },
;

/// Whether `has_uppercase_property` is known to agree with `A`..=`Z` on the
/// ASCII characters of `s` after its first one: `rename_variant` learns this
/// of its input, by calling `char::is_uppercase` on those characters.
pub open spec fn uppercase_known_after_first(s: Seq<char>) -> bool {
    forall|i: int|
        1 <= i < s.len() && is_ascii_char(s[i]) ==> (#[trigger] has_uppercase_property(s[i]) <==> (
        'A' <= s[i] && s[i] <= 'Z'))
}

/// `str` equality holds exactly when the two strings hold the same characters.
pub assume_specification[ <str as PartialEq>::eq ](a: &str, b: &str) -> (res: bool)
    ensures
        res == (a@ == b@),
;

/// `s` with every occurrence of `from` replaced by `to`, as `str::replace`
/// with a `char` pattern gives it.
pub fn replace_char_in(s: &str, from: char, to: &str) -> (res: String)
    ensures
        res@ == replace_char(s@, from, to@),
{
    broadcast use vstd::string::group_string_axioms;

    let mut result = String::new();
    assert(s@.subrange(0, s@.len() as int) =~= s@);
    assert(result@ + replace_char(s@, from, to@) =~= replace_char(s@, from, to@));
    for c in it: s.chars()
        invariant
            it.seq() == s@,
            replace_char(s@, from, to@) == result@ + replace_char(
                s@.subrange(it.index() as int, s@.len() as int),
                from,
                to@,
            ),
    {
        let ghost i = it.index() as int;
        let ghost before = result@;
        let ghost rest = s@.subrange(i, s@.len() as int);
        assert(rest[0] == c);
        assert(rest.drop_first() =~= s@.subrange(i + 1, s@.len() as int));
        if c == from {
            result.push_str(to);
        } else {
            result.push(c);
        }
        assert(before + (if c == from { to@ } else { seq![c] }) + replace_char(
            s@.subrange(i + 1, s@.len() as int),
            from,
            to@,
        ) =~= result@ + replace_char(s@.subrange(i + 1, s@.len() as int), from, to@));
    }
    assert(s@.subrange(s@.len() as int, s@.len() as int) =~= Seq::<char>::empty());
    assert(result@ + replace_char(Seq::<char>::empty(), from, to@) =~= result@);
    result
}

} // verus!
