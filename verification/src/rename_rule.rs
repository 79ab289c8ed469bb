//! The casing rules of `#[serde(rename_all = "...")]`, applied to field names
//! and to enum variant names.

use crate::diagnostics::{call_site, SpannedError};
use crate::text::{
    ascii_lower, ascii_upper, has_uppercase_property, is_ascii_char, lower_all, replace_char,
    replace_char_in, upper_all, uppercase_known_after_first,
};
use vstd::prelude::*;

verus! {

broadcast use vstd::string::group_string_axioms;

/// The message of the error for a rule name that is none of the eight.
pub const UNEXPECTED_RENAME_RULE: &'static str = "unexpected rename rule, expected one of: \"lowercase\", \"UPPERCASE\", \"Pascal\", \"camelCase\", \"snake_case\", \"SCREAMING_SNAKE_CASE\", \"kebab-case\", \"SCREAMING-KEBAB-CASE\"";

/// The casing rules that `#[serde(rename_all = "...")]` names.
#[derive(Debug, Clone, Copy, PartialEq, Eq)]
pub enum RenameRule {
    Lower,
    Upper,
    Camel,
    Snake,
    ScreamingSnake,
    Pascal,
    Kebab,
    ScreamingKebab,
}

/// camelCase of the snake_case text `s` from position `i` on: each `_` is
/// dropped and the character after it is put in ASCII upper case; `upper` says
/// whether the character at `i` follows a dropped `_`.
pub open spec fn camel_from(s: Seq<char>, i: int, upper: bool) -> Seq<char>
    decreases s.len() - i,
{
    if 0 <= i < s.len() {
        if s[i] == '_' {
            camel_from(s, i + 1, true)
        } else {
            seq![if upper { ascii_upper(s[i]) } else { s[i] }] + camel_from(s, i + 1, false)
        }
    } else {
        seq![]
    }
}

/// camelCase of a snake_case field name.
pub open spec fn camel_case(s: Seq<char>) -> Seq<char> {
    camel_from(s, 0, false)
}

/// The characters of `s` from position `i` on, with a `_` put before every
/// character that has the `Uppercase` property, but the first one of `s`.
pub open spec fn split_words_from(s: Seq<char>, i: int) -> Seq<char>
    decreases s.len() - i,
{
    if 0 <= i < s.len() {
        (if i > 0 && has_uppercase_property(s[i]) {
            seq!['_', s[i]]
        } else {
            seq![s[i]]
        }) + split_words_from(s, i + 1)
    } else {
        seq![]
    }
}

/// A PascalCase variant name with its words joined by `_`, still in its own case.
pub open spec fn split_words(s: Seq<char>) -> Seq<char> {
    split_words_from(s, 0)
}

/// snake_case of a PascalCase variant name.
pub open spec fn snake_case_of_variant(s: Seq<char>) -> Seq<char> {
    lower_all(split_words(s))
}

impl RenameRule {
    /// The rule that `name` stands for in `rename_all = "name"`, if any.
    pub open spec fn from_name(name: Seq<char>) -> Option<RenameRule> {
        if name == "lowercase"@ {
            Some(RenameRule::Lower)
        } else if name == "UPPERCASE"@ {
            Some(RenameRule::Upper)
        } else if name == "Pascal"@ {
            Some(RenameRule::Pascal)
        } else if name == "camelCase"@ {
            Some(RenameRule::Camel)
        } else if name == "snake_case"@ {
            Some(RenameRule::Snake)
        } else if name == "SCREAMING_SNAKE_CASE"@ {
            Some(RenameRule::ScreamingSnake)
        } else if name == "kebab-case"@ {
            Some(RenameRule::Kebab)
        } else if name == "SCREAMING-KEBAB-CASE"@ {
            Some(RenameRule::ScreamingKebab)
        } else {
            None
        }
    }

    /// Whether `rename` is defined on `value`: PascalCase takes the first
    /// character apart, which has to be there and take one byte.
    pub open spec fn renames(self, value: Seq<char>) -> bool {
        self == RenameRule::Pascal ==> value.len() > 0 && is_ascii_char(value[0])
    }

    /// Whether `rename_variant` is defined on `variant`: camelCase takes the
    /// first character apart, which has to be there and take one byte.
    pub open spec fn renames_variant(self, variant: Seq<char>) -> bool {
        self == RenameRule::Camel ==> variant.len() > 0 && is_ascii_char(variant[0])
    }

    /// A snake_case field name under this rule.
    pub open spec fn renamed(self, value: Seq<char>) -> Seq<char> {
        match self {
            RenameRule::Lower => lower_all(value),
            RenameRule::Upper => upper_all(value),
            RenameRule::Camel => camel_case(value),
            RenameRule::Snake => value,
            RenameRule::ScreamingSnake => upper_all(value),
            RenameRule::Pascal => seq![ascii_upper(value[0])] + camel_case(value.drop_first()),
            RenameRule::Kebab => replace_char(value, '_', seq!['-']),
            RenameRule::ScreamingKebab => upper_all(replace_char(value, '_', seq!['-'])),
        }
    }

    /// A PascalCase variant name under this rule.
    pub open spec fn renamed_variant(self, variant: Seq<char>) -> Seq<char> {
        match self {
            RenameRule::Lower => lower_all(variant),
            RenameRule::Upper => upper_all(variant),
            RenameRule::Camel => seq![ascii_lower(variant[0])] + variant.drop_first(),
            RenameRule::Snake => snake_case_of_variant(variant),
            RenameRule::ScreamingSnake => upper_all(split_words(variant)),
            RenameRule::Pascal => variant,
            RenameRule::Kebab => replace_char(snake_case_of_variant(variant), '_', seq!['-']),
            RenameRule::ScreamingKebab => upper_all(
                replace_char(snake_case_of_variant(variant), '_', seq!['-']),
            ),
        }
    }

    /// Whether `rename_variant` splits the variant name into words by case.
    pub open spec fn splits_words(self) -> bool {
        self is Snake || self is ScreamingSnake || self is Kebab || self is ScreamingKebab
    }

    /// How many other rules `rename` and `rename_variant` go through.
    pub open spec fn derivation_depth(self) -> nat {
        match self {
            RenameRule::ScreamingKebab => 2,
            RenameRule::ScreamingSnake | RenameRule::Pascal | RenameRule::Kebab => 1,
            _ => 0,
        }
    }
}

impl RenameRule {
    /// `value`, a snake_case field name, in the case of this rule.
    pub fn rename(&self, value: &str) -> (renamed: String)
        requires
            self.renames(value@),
        ensures
            renamed@ == self.renamed(value@),
        decreases self.derivation_depth(),
    {
        match self {
            RenameRule::Lower => value.to_ascii_lowercase(),
            RenameRule::Upper => value.to_ascii_uppercase(),
            RenameRule::Camel => {
                let mut camel_case = String::new();

                let mut upper = false;
                for letter in it: value.chars()
                    invariant
                        it.seq() == value@,
                        camel_from(value@, 0, false) == camel_case@ + camel_from(
                            value@,
                            it.index() as int,
                            upper,
                        ),
                {
                    let ghost done = camel_case@;
                    if letter == '_' {
                        upper = true;
                    } else if upper {
                        camel_case.push(letter.to_ascii_uppercase());
                        upper = false;
                        assert(done + camel_from(value@, it.index() as int, true) =~= camel_case@
                            + camel_from(value@, it.index() + 1, false));
                    } else {
                        camel_case.push(letter);
                        assert(done + camel_from(value@, it.index() as int, false) =~= camel_case@
                            + camel_from(value@, it.index() + 1, false));
                    }
                }
                assert(camel_case@ + camel_from(value@, value@.len() as int, upper) =~= camel_case@);
                camel_case
            },
            RenameRule::Snake => value.to_string(),
            RenameRule::ScreamingSnake => RenameRule::Snake.rename(value).to_ascii_uppercase(),
            RenameRule::Pascal => {
                let length = value.unicode_len();
                let first = value.substring_char(0, 1);
                let rest = value.substring_char(1, length);
                let mut pascal_case = first.to_ascii_uppercase();
                pascal_case.push_str(RenameRule::Camel.rename(rest).as_str());
                proof {
                    assert(first@ =~= seq![value@[0]]);
                    assert(rest@ =~= value@.drop_first());
                    assert(upper_all(first@) =~= seq![ascii_upper(value@[0])]);
                }
                pascal_case
            },
            RenameRule::Kebab => {
                proof {
                    reveal_strlit("-");
                    assert("-"@ =~= seq!['-']);
                }
                replace_char_in(RenameRule::Snake.rename(value).as_str(), '_', "-")
            },
            RenameRule::ScreamingKebab => RenameRule::Kebab.rename(value).to_ascii_uppercase(),
        }
    }

    /// `variant`, a PascalCase enum variant name, in the case of this rule.
    pub fn rename_variant(&self, variant: &str) -> (renamed: String)
        requires
            self.renames_variant(variant@),
        ensures
            renamed@ == self.renamed_variant(variant@),
            self.splits_words() ==> uppercase_known_after_first(variant@),
        decreases self.derivation_depth(),
    {
        match self {
            RenameRule::Lower => variant.to_ascii_lowercase(),
            RenameRule::Upper => variant.to_ascii_uppercase(),
            RenameRule::Camel => {
                let length = variant.unicode_len();
                let first = variant.substring_char(0, 1);
                let rest = variant.substring_char(1, length);
                let mut snake_case = first.to_ascii_lowercase();
                snake_case.push_str(rest);
                proof {
                    assert(first@ =~= seq![variant@[0]]);
                    assert(rest@ =~= variant@.drop_first());
                    assert(lower_all(first@) =~= seq![ascii_lower(variant@[0])]);
                }
                snake_case
            },
            RenameRule::Snake => {
                let mut snake_case = String::new();

                let mut first = true;
                for letter in it: variant.chars()
                    invariant
                        it.seq() == variant@,
                        first <==> it.index() == 0,
                        forall|j: int|
                            1 <= j < it.index() && is_ascii_char(variant@[j]) ==> (
                            #[trigger] has_uppercase_property(variant@[j]) <==> ('A' <= variant@[j]
                                && variant@[j] <= 'Z')),
                        split_words_from(variant@, 0) == snake_case@ + split_words_from(
                            variant@,
                            it.index() as int,
                        ),
                {
                    let ghost done = snake_case@;
                    if !first && letter.is_uppercase() {
                        snake_case.push('_');
                    }
                    snake_case.push(letter);
                    first = false;
                    assert(done + split_words_from(variant@, it.index() as int) =~= snake_case@
                        + split_words_from(variant@, it.index() + 1));
                }
                assert(snake_case@ + split_words_from(variant@, variant@.len() as int)
                    =~= snake_case@);

                snake_case.to_ascii_lowercase()
            },
            RenameRule::ScreamingSnake => {
                let screaming = RenameRule::Snake.rename_variant(variant).to_ascii_uppercase();
                proof {
                    lemma_upper_of_lower(split_words(variant@));
                }
                screaming
            },
            RenameRule::Pascal => variant.to_string(),
            RenameRule::Kebab => {
                proof {
                    reveal_strlit("-");
                    assert("-"@ =~= seq!['-']);
                }
                replace_char_in(RenameRule::Snake.rename_variant(variant).as_str(), '_', "-")
            },
            RenameRule::ScreamingKebab => RenameRule::Kebab.rename_variant(variant).to_ascii_uppercase(),
        }
    }

    /// The rule that `name` stands for in `rename_all = "name"`; for any other
    /// name, an error at the macro's call site that lists the accepted names.
    pub fn parse_rule(name: &str) -> (rule: Result<RenameRule, SpannedError>)
        ensures
            rule is Ok <==> RenameRule::from_name(name@) is Some,
            rule matches Ok(r) ==> RenameRule::from_name(name@) == Some(r),
            rule matches Err(e) ==> e.message@ == UNEXPECTED_RENAME_RULE@,
    {
        if "lowercase".eq(name) {
            Ok(RenameRule::Lower)
        } else if "UPPERCASE".eq(name) {
            Ok(RenameRule::Upper)
        } else if "Pascal".eq(name) {
            Ok(RenameRule::Pascal)
        } else if "camelCase".eq(name) {
            Ok(RenameRule::Camel)
        } else if "snake_case".eq(name) {
            Ok(RenameRule::Snake)
        } else if "SCREAMING_SNAKE_CASE".eq(name) {
            Ok(RenameRule::ScreamingSnake)
        } else if "kebab-case".eq(name) {
            Ok(RenameRule::Kebab)
        } else if "SCREAMING-KEBAB-CASE".eq(name) {
            Ok(RenameRule::ScreamingKebab)
        } else {
            Err(SpannedError { span: call_site(), message: UNEXPECTED_RENAME_RULE.to_string() })
        }
    }
}

impl std::str::FromStr for RenameRule {
    type Err = SpannedError;

    fn from_str(s: &str) -> (rule: Result<Self, Self::Err>)
        ensures
            rule is Ok <==> RenameRule::from_name(s@) is Some,
            rule matches Ok(r) ==> RenameRule::from_name(s@) == Some(r),
            rule matches Err(e) ==> e.message@ == UNEXPECTED_RENAME_RULE@,
    {
        RenameRule::parse_rule(s)
    }
}

/// Upper-casing forgets an earlier lower-casing.
pub proof fn lemma_upper_of_lower(s: Seq<char>)
    ensures
        upper_all(lower_all(s)) == upper_all(s),
{
    assert(upper_all(lower_all(s)) =~= upper_all(s));
}

} // verus!

verus! {

/// Whether `s` holds no `_`.
pub open spec fn no_underscore(s: Seq<char>) -> bool {
    forall|k: int| 0 <= k < s.len() ==> s[k] != '_'
}

/// Lower-casing twice is lower-casing once.
pub proof fn lemma_lower_idempotent(s: Seq<char>)
    ensures
        lower_all(lower_all(s)) == lower_all(s),
{
    assert(lower_all(lower_all(s)) =~= lower_all(s));
}

/// Upper-casing twice is upper-casing once.
pub proof fn lemma_upper_idempotent(s: Seq<char>)
    ensures
        upper_all(upper_all(s)) == upper_all(s),
{
    assert(upper_all(upper_all(s)) =~= upper_all(s));
}

/// Upper-casing puts no `_` where there was none.
pub proof fn lemma_upper_keeps_no_underscore(s: Seq<char>)
    requires
        no_underscore(s),
    ensures
        no_underscore(upper_all(s)),
{
}

/// Replacing `_` by `-` leaves no `_`.
pub proof fn lemma_replace_leaves_no_underscore(s: Seq<char>)
    ensures
        no_underscore(replace_char(s, '_', seq!['-'])),
    decreases s.len(),
{
    if s.len() > 0 {
        lemma_replace_leaves_no_underscore(s.drop_first());
        let head = if s[0] == '_' { seq!['-'] } else { seq![s[0]] };
        let tail = replace_char(s.drop_first(), '_', seq!['-']);
        assert forall|k: int| 0 <= k < (head + tail).len() implies (head + tail)[k] != '_' by {
            if k >= head.len() {
                assert((head + tail)[k] == tail[k - head.len()]);
            }
        }
    }
}

/// Replacing `_` changes nothing in a text without `_`.
pub proof fn lemma_replace_without_underscore(s: Seq<char>)
    requires
        no_underscore(s),
    ensures
        replace_char(s, '_', seq!['-']) == s,
    decreases s.len(),
{
    if s.len() > 0 {
        assert(no_underscore(s.drop_first()));
        lemma_replace_without_underscore(s.drop_first());
        assert(seq![s[0]] + s.drop_first() =~= s);
    }
}

/// camelCase from `i` on puts no `_` in its output.
pub proof fn lemma_camel_no_underscore(s: Seq<char>, i: int, upper: bool)
    ensures
        no_underscore(camel_from(s, i, upper)),
    decreases s.len() - i,
{
    if 0 <= i < s.len() {
        if s[i] == '_' {
            lemma_camel_no_underscore(s, i + 1, true);
        } else {
            lemma_camel_no_underscore(s, i + 1, false);
            let head = seq![if upper { ascii_upper(s[i]) } else { s[i] }];
            let tail = camel_from(s, i + 1, false);
            assert forall|k: int| 0 <= k < (head + tail).len() implies (head + tail)[k] != '_' by {
                if k >= 1 {
                    assert((head + tail)[k] == tail[k - 1]);
                }
            }
        }
    }
}

/// camelCase from `i` on of a text without `_` is the rest of that text.
pub proof fn lemma_camel_without_underscore(s: Seq<char>, i: int)
    requires
        no_underscore(s),
        0 <= i <= s.len(),
    ensures
        camel_from(s, i, false) == s.subrange(i, s.len() as int),
    decreases s.len() - i,
{
    if i < s.len() {
        lemma_camel_without_underscore(s, i + 1);
        assert(seq![s[i]] + s.subrange(i + 1, s.len() as int) =~= s.subrange(i, s.len() as int));
    } else {
        assert(s.subrange(i, s.len() as int) =~= Seq::<char>::empty());
    }
}

/// camelCase of `s` without its first character, from `i` on, is camelCase of
/// `s` from `i + 1` on.
pub proof fn lemma_camel_shift(s: Seq<char>, i: int, upper: bool)
    requires
        s.len() > 0,
        0 <= i,
    ensures
        camel_from(s.drop_first(), i, upper) == camel_from(s, i + 1, upper),
    decreases s.len() - i,
{
    if i < s.len() - 1 {
        assert(s.drop_first()[i] == s[i + 1]);
        lemma_camel_shift(s, i + 1, true);
        lemma_camel_shift(s, i + 1, false);
    }
}

/// The derived rules are the basic ones composed: SCREAMING_SNAKE_CASE is
/// snake_case in upper case, kebab-case is snake_case with `-` for `_`,
/// SCREAMING-KEBAB-CASE is kebab-case in upper case; this holds for field
/// names and for variant names alike.
pub proof fn law_derived_rules(value: Seq<char>, variant: Seq<char>)
    ensures
        RenameRule::ScreamingSnake.renamed(value) == RenameRule::Upper.renamed(
            RenameRule::Snake.renamed(value),
        ),
        RenameRule::Kebab.renamed(value) == replace_char(
            RenameRule::Snake.renamed(value),
            '_',
            seq!['-'],
        ),
        RenameRule::ScreamingKebab.renamed(value) == RenameRule::Upper.renamed(
            RenameRule::Kebab.renamed(value),
        ),
        RenameRule::ScreamingSnake.renamed_variant(variant) == RenameRule::Upper.renamed(
            RenameRule::Snake.renamed_variant(variant),
        ),
        RenameRule::Kebab.renamed_variant(variant) == replace_char(
            RenameRule::Snake.renamed_variant(variant),
            '_',
            seq!['-'],
        ),
        RenameRule::ScreamingKebab.renamed_variant(variant) == RenameRule::Upper.renamed(
            RenameRule::Kebab.renamed_variant(variant),
        ),
{
    lemma_upper_of_lower(split_words(variant));
}

/// A PascalCase field name is its camelCase name with the first character in
/// upper case, when the name does not start with `_`.
pub proof fn law_pascal_is_capitalized_camel(value: Seq<char>)
    requires
        RenameRule::Pascal.renames(value),
        value[0] != '_',
    ensures
        ({
            let camel = RenameRule::Camel.renamed(value);
            &&& camel.len() > 0
            &&& RenameRule::Pascal.renamed(value) == seq![ascii_upper(camel[0])]
                + camel.drop_first()
        }),
{
    lemma_camel_shift(value, 0, false);
    let camel = camel_from(value, 0, false);
    assert(camel == seq![value[0]] + camel_from(value, 1, false));
    assert(camel.drop_first() =~= camel_from(value, 1, false));
}

/// Renaming a field name that a rule has already renamed changes nothing.
pub proof fn law_rename_idempotent(rule: RenameRule, value: Seq<char>)
    requires
        rule.renames(value),
    ensures
        rule.renames(rule.renamed(value)),
        rule.renamed(rule.renamed(value)) == rule.renamed(value),
{
    match rule {
        RenameRule::Lower => lemma_lower_idempotent(value),
        RenameRule::Upper | RenameRule::ScreamingSnake => lemma_upper_idempotent(value),
        RenameRule::Camel => {
            let camel = camel_from(value, 0, false);
            lemma_camel_no_underscore(value, 0, false);
            lemma_camel_without_underscore(camel, 0);
            assert(camel.subrange(0, camel.len() as int) =~= camel);
        },
        RenameRule::Snake => {},
        RenameRule::Pascal => {
            let camel = camel_from(value.drop_first(), 0, false);
            let pascal = seq![ascii_upper(value[0])] + camel;
            assert(pascal[0] == ascii_upper(value[0]));
            assert(pascal.drop_first() =~= camel);
            lemma_camel_no_underscore(value.drop_first(), 0, false);
            lemma_camel_without_underscore(camel, 0);
            assert(camel.subrange(0, camel.len() as int) =~= camel);
        },
        RenameRule::Kebab => {
            let kebab = replace_char(value, '_', seq!['-']);
            lemma_replace_leaves_no_underscore(value);
            lemma_replace_without_underscore(kebab);
        },
        RenameRule::ScreamingKebab => {
            let kebab = replace_char(value, '_', seq!['-']);
            lemma_replace_leaves_no_underscore(value);
            lemma_upper_keeps_no_underscore(kebab);
            lemma_replace_without_underscore(upper_all(kebab));
            lemma_upper_idempotent(kebab);
        },
    }
}

/// Each of the eight rules is named by one of the names that `rename_all` accepts.
pub proof fn law_every_rule_has_a_name(rule: RenameRule)
    ensures
        exists|name: Seq<char>| RenameRule::from_name(name) == Some(rule),
{
    reveal_strlit("lowercase");
    reveal_strlit("UPPERCASE");
    reveal_strlit("Pascal");
    reveal_strlit("camelCase");
    reveal_strlit("snake_case");
    reveal_strlit("SCREAMING_SNAKE_CASE");
    reveal_strlit("kebab-case");
    reveal_strlit("SCREAMING-KEBAB-CASE");
    assert("lowercase"@.len() == 9 && "UPPERCASE"@.len() == 9 && "camelCase"@.len() == 9);
    assert("Pascal"@.len() == 6);
    assert("snake_case"@.len() == 10 && "kebab-case"@.len() == 10);
    assert("SCREAMING_SNAKE_CASE"@.len() == 20 && "SCREAMING-KEBAB-CASE"@.len() == 20);
    assert("lowercase"@[0] == 'l' && "UPPERCASE"@[0] == 'U' && "camelCase"@[0] == 'c');
    assert("snake_case"@[0] == 's' && "kebab-case"@[0] == 'k');
    assert("SCREAMING_SNAKE_CASE"@[9] == '_' && "SCREAMING-KEBAB-CASE"@[9] == '-');
    match rule {
        RenameRule::Lower => assert(RenameRule::from_name("lowercase"@) == Some(rule)),
        RenameRule::Upper => assert(RenameRule::from_name("UPPERCASE"@) == Some(rule)),
        RenameRule::Pascal => assert(RenameRule::from_name("Pascal"@) == Some(rule)),
        RenameRule::Camel => assert(RenameRule::from_name("camelCase"@) == Some(rule)),
        RenameRule::Snake => assert(RenameRule::from_name("snake_case"@) == Some(rule)),
        RenameRule::ScreamingSnake => {
            assert(RenameRule::from_name("SCREAMING_SNAKE_CASE"@) == Some(rule));
        },
        RenameRule::Kebab => assert(RenameRule::from_name("kebab-case"@) == Some(rule)),
        RenameRule::ScreamingKebab => {
            assert(RenameRule::from_name("SCREAMING-KEBAB-CASE"@) == Some(rule));
        },
    }
}

} // verus!
