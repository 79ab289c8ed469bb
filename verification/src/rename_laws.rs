//! Laws that link renaming a variant name and renaming a field name, and
//! that say when renaming a variant name twice changes nothing more.

use crate::rename_rule::{
    camel_from, camel_case, lemma_lower_idempotent, lemma_replace_leaves_no_underscore,
    lemma_replace_without_underscore, lemma_upper_idempotent, lemma_upper_of_lower,
    split_words, split_words_from, RenameRule,
};
use crate::text::{
    ascii_lower, ascii_upper, has_uppercase_property, is_ascii_char, lower_all, replace_char,
    uppercase_known_after_first,
};
use vstd::prelude::*;

verus! {

/// camelCase of `s` read from its front; `upper` says whether the first
/// character follows a dropped `_`.
pub open spec fn camel_seq(s: Seq<char>, upper: bool) -> Seq<char>
    decreases s.len(),
{
    if s.len() == 0 {
        seq![]
    } else if s[0] == '_' {
        camel_seq(s.drop_first(), true)
    } else {
        seq![if upper { ascii_upper(s[0]) } else { s[0] }] + camel_seq(s.drop_first(), false)
    }
}

/// The characters of `t`, none of them first in the name, each with a `_`
/// put before it when it has the `Uppercase` property.
pub open spec fn split_tail(t: Seq<char>) -> Seq<char>
    decreases t.len(),
{
    if t.len() == 0 {
        seq![]
    } else {
        (if has_uppercase_property(t[0]) {
            seq!['_', t[0]]
        } else {
            seq![t[0]]
        }) + split_tail(t.drop_first())
    }
}

/// Whether `has_uppercase_property` agrees with `A`..=`Z` on every ASCII character of `s`.
pub open spec fn uppercase_known(s: Seq<char>) -> bool {
    forall|i: int|
        0 <= i < s.len() && is_ascii_char(s[i]) ==> (#[trigger] has_uppercase_property(s[i]) <==> (
        'A' <= s[i] && s[i] <= 'Z'))
}

/// Whether `c` is an ASCII letter or digit.
pub open spec fn is_ascii_alphanumeric(c: char) -> bool {
    ||| 'A' <= c && c <= 'Z'
    ||| 'a' <= c && c <= 'z'
    ||| '0' <= c && c <= '9'
}

/// Whether `v` is an ASCII PascalCase name: an upper-case letter, then letters and digits.
pub open spec fn is_ascii_pascal(v: Seq<char>) -> bool {
    &&& v.len() > 0
    &&& 'A' <= v[0] && v[0] <= 'Z'
    &&& forall|i: int| 0 <= i < v.len() ==> is_ascii_alphanumeric(#[trigger] v[i])
}

/// Whether `w` is the rest of an ASCII snake_case name: lower-case letters,
/// digits and `_`, each `_` followed by a lower-case letter.
pub open spec fn is_snake_tail(w: Seq<char>) -> bool {
    &&& forall|i: int|
        0 <= i < w.len() ==> ('a' <= #[trigger] w[i] && w[i] <= 'z') || ('0' <= w[i] && w[i]
            <= '9') || w[i] == '_'
    &&& forall|i: int|
        0 <= i < w.len() && #[trigger] w[i] == '_' ==> i + 1 < w.len() && 'a' <= w[i + 1] && w[i
            + 1] <= 'z'
}

/// Whether `s` is an ASCII snake_case name whose every word starts with a letter.
pub open spec fn is_ascii_snake(s: Seq<char>) -> bool {
    &&& s.len() > 0
    &&& 'a' <= s[0] && s[0] <= 'z'
    &&& is_snake_tail(s.drop_first())
}

/// Whether every character of `s` is ASCII.
pub open spec fn all_ascii(s: Seq<char>) -> bool {
    forall|i: int| 0 <= i < s.len() ==> is_ascii_char(#[trigger] s[i])
}

/// Whether no character of `s` is an ASCII upper-case letter.
pub open spec fn no_ascii_upper(s: Seq<char>) -> bool {
    forall|i: int| 0 <= i < s.len() ==> !('A' <= #[trigger] s[i] && s[i] <= 'Z')
}

/// camelCase by position is camelCase read from the front.
pub proof fn lemma_camel_from_seq(s: Seq<char>, i: int, upper: bool)
    requires
        0 <= i <= s.len(),
    ensures
        camel_from(s, i, upper) == camel_seq(s.subrange(i, s.len() as int), upper),
    decreases s.len() - i,
{
    if i < s.len() {
        lemma_camel_from_seq(s, i + 1, true);
        lemma_camel_from_seq(s, i + 1, false);
        assert(s.subrange(i, s.len() as int).drop_first() =~= s.subrange(i + 1, s.len() as int));
    } else {
        assert(s.subrange(i, s.len() as int) =~= Seq::<char>::empty());
    }
}

/// camelCase of a whole name is camelCase read from the front.
pub proof fn lemma_camel_case_seq(s: Seq<char>)
    ensures
        camel_case(s) == camel_seq(s, false),
{
    lemma_camel_from_seq(s, 0, false);
    assert(s.subrange(0, s.len() as int) =~= s);
}

/// The word split by position, after the first one, reads the rest from the front.
pub proof fn lemma_split_from_tail(s: Seq<char>, i: int)
    requires
        1 <= i <= s.len(),
    ensures
        split_words_from(s, i) == split_tail(s.subrange(i, s.len() as int)),
    decreases s.len() - i,
{
    if i < s.len() {
        lemma_split_from_tail(s, i + 1);
        assert(s.subrange(i, s.len() as int).drop_first() =~= s.subrange(i + 1, s.len() as int));
    } else {
        assert(s.subrange(i, s.len() as int) =~= Seq::<char>::empty());
    }
}

/// The word split keeps the first character and splits the rest.
pub proof fn lemma_split_words_head(s: Seq<char>)
    requires
        s.len() > 0,
    ensures
        split_words(s) == seq![s[0]] + split_tail(s.drop_first()),
{
    lemma_split_from_tail(s, 1);
    assert(s.subrange(1, s.len() as int) =~= s.drop_first());
}

/// Lower-casing goes character by character.
pub proof fn lemma_lower_concat(a: Seq<char>, b: Seq<char>)
    ensures
        lower_all(a + b) == lower_all(a) + lower_all(b),
{
    assert(lower_all(a + b) =~= lower_all(a) + lower_all(b));
}

/// Knowing the `Uppercase` property on a sequence, it is known on the sequence without its first character.
pub proof fn lemma_uppercase_known_drop_first(s: Seq<char>)
    requires
        uppercase_known(s),
        s.len() > 0,
    ensures
        uppercase_known(s.drop_first()),
{
    assert forall|i: int|
        0 <= i < s.drop_first().len() && is_ascii_char(s.drop_first()[i]) implies (
    #[trigger] has_uppercase_property(s.drop_first()[i]) <==> ('A' <= s.drop_first()[i]
        && s.drop_first()[i] <= 'Z')) by {
        assert(s.drop_first()[i] == s[i + 1]);
    }
}

/// Splitting the words of an ASCII name and lower-casing them, then putting
/// the name in camelCase, gives the name back.
pub proof fn lemma_camel_of_split(w: Seq<char>)
    requires
        forall|i: int| 0 <= i < w.len() ==> is_ascii_alphanumeric(#[trigger] w[i]),
        uppercase_known(w),
    ensures
        camel_seq(lower_all(split_tail(w)), false) == w,
    decreases w.len(),
{
    if w.len() > 0 {
        let c = w[0];
        let rest = w.drop_first();
        assert(is_ascii_alphanumeric(w[0]));
        assert forall|i: int| 0 <= i < rest.len() implies is_ascii_alphanumeric(#[trigger] rest[i]) by {
            assert(rest[i] == w[i + 1]);
            assert(is_ascii_alphanumeric(w[i + 1]));
        }
        lemma_uppercase_known_drop_first(w);
        lemma_camel_of_split(rest);
        let tail = lower_all(split_tail(rest));
        assert(has_uppercase_property(w[0]) <==> ('A' <= c && c <= 'Z'));
        if 'A' <= c && c <= 'Z' {
            lemma_lower_concat(seq!['_', c], split_tail(rest));
            let x = lower_all(seq!['_', c]) + tail;
            assert(lower_all(seq!['_', c]) =~= seq!['_', ascii_lower(c)]);
            assert(x[0] == '_');
            assert(x.drop_first() =~= seq![ascii_lower(c)] + tail);
            let y = seq![ascii_lower(c)] + tail;
            assert(y[0] == ascii_lower(c));
            assert(y.drop_first() =~= tail);
            assert(ascii_upper(ascii_lower(c)) == c);
            assert(camel_seq(y, true) == seq![c] + rest);
        } else {
            lemma_lower_concat(seq![c], split_tail(rest));
            let x = lower_all(seq![c]) + tail;
            assert(lower_all(seq![c]) =~= seq![c]);
            assert(x[0] == c);
            assert(x.drop_first() =~= tail);
        }
        assert(seq![c] + rest =~= w);
    }
}

/// For an ASCII PascalCase variant name `v`, renaming its snake_case form as
/// a field name gives what renaming `v` as a variant name gives, under each
/// of the rules that split words.
pub proof fn law_field_rename_of_snake_variant(rule: RenameRule, v: Seq<char>)
    requires
        is_ascii_pascal(v),
        uppercase_known_after_first(v),
        !(rule is Lower || rule is Upper),
    ensures
        rule.renames(RenameRule::Snake.renamed_variant(v)),
        rule.renamed(RenameRule::Snake.renamed_variant(v)) == rule.renamed_variant(v),
        RenameRule::Pascal.renamed(RenameRule::Snake.renamed_variant(v)) == v,
{
    let w = v.drop_first();
    let lowered = lower_all(split_tail(w));
    let s = RenameRule::Snake.renamed_variant(v);
    assert forall|i: int| 0 <= i < w.len() implies is_ascii_alphanumeric(#[trigger] w[i]) by {
        assert(w[i] == v[i + 1]);
    }
    assert forall|i: int| 0 <= i < w.len() && is_ascii_char(w[i]) implies (
    #[trigger] has_uppercase_property(w[i]) <==> ('A' <= w[i] && w[i] <= 'Z')) by {
        assert(w[i] == v[i + 1]);
    }
    lemma_camel_of_split(w);
    lemma_split_words_head(v);
    lemma_lower_concat(seq![v[0]], split_tail(w));
    assert(lower_all(seq![v[0]]) =~= seq![ascii_lower(v[0])]);
    assert(s == seq![ascii_lower(v[0])] + lowered);
    assert(s[0] == ascii_lower(v[0]));
    assert(s.drop_first() =~= lowered);
    lemma_camel_case_seq(s);
    lemma_camel_case_seq(lowered);
    assert(camel_seq(s, false) == seq![ascii_lower(v[0])] + w);
    assert(ascii_upper(ascii_lower(v[0])) == v[0]);
    assert(seq![v[0]] + w =~= v);
    lemma_upper_of_lower(split_words(v));
}

/// The rest of an ASCII snake_case name, put in camelCase, then split into
/// words and lower-cased, is that rest again.
pub proof fn lemma_split_of_camel(w: Seq<char>)
    requires
        is_snake_tail(w),
        uppercase_known(camel_seq(w, false)),
    ensures
        lower_all(split_tail(camel_seq(w, false))) == w,
    decreases w.len(),
{
    if w.len() > 0 {
        let c = w[0];
        let camel = camel_seq(w, false);
        if c == '_' {
            assert(w[0] == '_');
            assert(1 < w.len() && 'a' <= w[1] && w[1] <= 'z');
            let letter = w[1];
            let r = w.subrange(2, w.len() as int);
            let d = w.drop_first();
            assert(d[0] == letter);
            assert(d.drop_first() =~= r);
            assert(is_snake_tail(r)) by {
                assert forall|i: int| 0 <= i < r.len() implies ('a' <= #[trigger] r[i] && r[i]
                    <= 'z') || ('0' <= r[i] && r[i] <= '9') || r[i] == '_' by {
                    assert(r[i] == w[i + 2]);
                }
                assert forall|i: int| 0 <= i < r.len() && #[trigger] r[i] == '_' implies i + 1
                    < r.len() && 'a' <= r[i + 1] && r[i + 1] <= 'z' by {
                    assert(r[i] == w[i + 2]);
                    assert(r[i + 1] == w[i + 3]);
                }
            }
            let upper = ascii_upper(letter);
            assert(camel == camel_seq(d, true));
            assert(camel == seq![upper] + camel_seq(r, false));
            assert(camel[0] == upper);
            assert(camel.drop_first() =~= camel_seq(r, false));
            lemma_uppercase_known_drop_first(camel);
            lemma_split_of_camel(r);
            assert(has_uppercase_property(camel[0]));
            lemma_lower_concat(seq!['_', upper], split_tail(camel_seq(r, false)));
            assert(lower_all(seq!['_', upper]) =~= seq!['_', letter]);
            assert(seq!['_', letter] + r =~= w);
        } else {
            let d = w.drop_first();
            assert(is_snake_tail(d)) by {
                assert forall|i: int| 0 <= i < d.len() implies ('a' <= #[trigger] d[i] && d[i]
                    <= 'z') || ('0' <= d[i] && d[i] <= '9') || d[i] == '_' by {
                    assert(d[i] == w[i + 1]);
                }
                assert forall|i: int| 0 <= i < d.len() && #[trigger] d[i] == '_' implies i + 1
                    < d.len() && 'a' <= d[i + 1] && d[i + 1] <= 'z' by {
                    assert(d[i] == w[i + 1]);
                    assert(d[i + 1] == w[i + 2]);
                }
            }
            assert(camel == seq![c] + camel_seq(d, false));
            assert(camel[0] == c);
            assert(camel.drop_first() =~= camel_seq(d, false));
            lemma_uppercase_known_drop_first(camel);
            lemma_split_of_camel(d);
            assert(!has_uppercase_property(camel[0]));
            lemma_lower_concat(seq![c], split_tail(camel_seq(d, false)));
            assert(lower_all(seq![c]) =~= seq![c]);
            assert(seq![c] + d =~= w);
        }
    }
}

/// An ASCII snake_case field name put in PascalCase, then put back in
/// snake_case as a variant name, is the name again.
pub proof fn law_snake_pascal_round_trip(s: Seq<char>)
    requires
        is_ascii_snake(s),
        uppercase_known_after_first(RenameRule::Pascal.renamed(s)),
    ensures
        RenameRule::Pascal.renames(s),
        RenameRule::Snake.renamed_variant(RenameRule::Pascal.renamed(s)) == s,
{
    let w = s.drop_first();
    let camel = camel_seq(w, false);
    let p = RenameRule::Pascal.renamed(s);
    lemma_camel_case_seq(w);
    assert(p == seq![ascii_upper(s[0])] + camel);
    assert(p[0] == ascii_upper(s[0]));
    assert(p.drop_first() =~= camel);
    assert forall|i: int| 0 <= i < camel.len() && is_ascii_char(camel[i]) implies (
    #[trigger] has_uppercase_property(camel[i]) <==> ('A' <= camel[i] && camel[i] <= 'Z')) by {
        assert(camel[i] == p[i + 1]);
    }
    lemma_split_of_camel(w);
    lemma_split_words_head(p);
    lemma_lower_concat(seq![p[0]], split_tail(camel));
    assert(lower_all(seq![p[0]]) =~= seq![s[0]]);
    assert(seq![s[0]] + w =~= s);
}

/// Two sequences that are ASCII, with no upper-case ASCII letter, join into one.
pub proof fn lemma_plain_concat(a: Seq<char>, b: Seq<char>)
    requires
        all_ascii(a) && no_ascii_upper(a),
        all_ascii(b) && no_ascii_upper(b),
    ensures
        all_ascii(a + b) && no_ascii_upper(a + b),
{
    assert forall|i: int| 0 <= i < (a + b).len() implies is_ascii_char(#[trigger] (a + b)[i]) && !(
    'A' <= (a + b)[i] && (a + b)[i] <= 'Z') by {
        if i >= a.len() {
            assert((a + b)[i] == b[i - a.len()]);
        } else {
            assert((a + b)[i] == a[i]);
        }
    }
}

/// Splitting the words of an ASCII name keeps it ASCII.
pub proof fn lemma_split_ascii(v: Seq<char>, i: int)
    requires
        all_ascii(v),
    ensures
        all_ascii(split_words_from(v, i)),
    decreases v.len() - i,
{
    if 0 <= i < v.len() {
        lemma_split_ascii(v, i + 1);
        let head = if i > 0 && has_uppercase_property(v[i]) {
            seq!['_', v[i]]
        } else {
            seq![v[i]]
        };
        let tail = split_words_from(v, i + 1);
        assert(is_ascii_char(v[i]));
        assert forall|k: int| 0 <= k < (head + tail).len() implies is_ascii_char(
            #[trigger] (head + tail)[k],
        ) by {
            if k >= head.len() {
                assert((head + tail)[k] == tail[k - head.len()]);
            }
        }
    }
}

/// Lower-casing an ASCII sequence leaves it ASCII, with no upper-case letter.
pub proof fn lemma_lower_plain(s: Seq<char>)
    requires
        all_ascii(s),
    ensures
        all_ascii(lower_all(s)),
        no_ascii_upper(lower_all(s)),
{
    assert forall|i: int| 0 <= i < lower_all(s).len() implies is_ascii_char(
        #[trigger] lower_all(s)[i],
    ) && !('A' <= lower_all(s)[i] && lower_all(s)[i] <= 'Z') by {
        assert(is_ascii_char(s[i]));
    }
}

/// Lower-casing a sequence with no upper-case ASCII letter changes nothing.
pub proof fn lemma_lower_identity(s: Seq<char>)
    requires
        no_ascii_upper(s),
    ensures
        lower_all(s) == s,
{
    assert(lower_all(s) =~= s);
}

/// Replacing `_` by `-` keeps a sequence ASCII and free of upper-case letters.
pub proof fn lemma_replace_plain(s: Seq<char>)
    requires
        all_ascii(s) && no_ascii_upper(s),
    ensures
        all_ascii(replace_char(s, '_', seq!['-'])),
        no_ascii_upper(replace_char(s, '_', seq!['-'])),
    decreases s.len(),
{
    if s.len() > 0 {
        assert(all_ascii(s.drop_first()) && no_ascii_upper(s.drop_first())) by {
            assert forall|i: int| 0 <= i < s.drop_first().len() implies is_ascii_char(
                #[trigger] s.drop_first()[i],
            ) && !('A' <= s.drop_first()[i] && s.drop_first()[i] <= 'Z') by {
                assert(s.drop_first()[i] == s[i + 1]);
            }
        }
        lemma_replace_plain(s.drop_first());
        assert(is_ascii_char(s[0]) && !('A' <= s[0] && s[0] <= 'Z'));
        let head = if s[0] == '_' { seq!['-'] } else { seq![s[0]] };
        assert(all_ascii(head) && no_ascii_upper(head));
        lemma_plain_concat(head, replace_char(s.drop_first(), '_', seq!['-']));
    }
}

/// Splitting, from its front, a sequence without upper-case characters changes nothing.
pub proof fn lemma_split_tail_identity(u: Seq<char>)
    requires
        all_ascii(u),
        no_ascii_upper(u),
        uppercase_known(u),
    ensures
        split_tail(u) == u,
    decreases u.len(),
{
    if u.len() > 0 {
        assert(is_ascii_char(u[0]) && !('A' <= u[0] && u[0] <= 'Z'));
        assert(!has_uppercase_property(u[0]));
        let rest = u.drop_first();
        assert(all_ascii(rest) && no_ascii_upper(rest)) by {
            assert forall|i: int| 0 <= i < rest.len() implies is_ascii_char(#[trigger] rest[i])
                && !('A' <= rest[i] && rest[i] <= 'Z') by {
                assert(rest[i] == u[i + 1]);
            }
        }
        lemma_uppercase_known_drop_first(u);
        lemma_split_tail_identity(rest);
        assert(seq![u[0]] + rest =~= u);
    }
}

/// Splitting the words of a sequence without upper-case characters changes nothing.
pub proof fn lemma_split_identity(t: Seq<char>)
    requires
        all_ascii(t),
        no_ascii_upper(t),
        uppercase_known_after_first(t),
    ensures
        split_words(t) == t,
{
    if t.len() > 0 {
        let rest = t.drop_first();
        assert(all_ascii(rest) && no_ascii_upper(rest)) by {
            assert forall|i: int| 0 <= i < rest.len() implies is_ascii_char(#[trigger] rest[i])
                && !('A' <= rest[i] && rest[i] <= 'Z') by {
                assert(rest[i] == t[i + 1]);
            }
        }
        assert forall|i: int| 0 <= i < rest.len() && is_ascii_char(rest[i]) implies (
        #[trigger] has_uppercase_property(rest[i]) <==> ('A' <= rest[i] && rest[i] <= 'Z')) by {
            assert(rest[i] == t[i + 1]);
        }
        lemma_split_tail_identity(rest);
        lemma_split_words_head(t);
        assert(seq![t[0]] + rest =~= t);
    } else {
        assert(split_words(t) =~= t);
    }
}

/// Renaming an ASCII variant name that a rule has already renamed changes
/// nothing, for every rule but SCREAMING_SNAKE_CASE and SCREAMING-KEBAB-CASE
/// (whose upper-case output would be split into words again). The rules that
/// split words rely on what `rename_variant` learns of the `Uppercase`
/// property when it is run on the renamed name.
pub proof fn law_rename_variant_idempotent(rule: RenameRule, v: Seq<char>)
    requires
        all_ascii(v),
        rule.renames_variant(v),
        !(rule is ScreamingSnake || rule is ScreamingKebab),
        rule.splits_words() ==> uppercase_known_after_first(rule.renamed_variant(v)),
    ensures
        rule.renames_variant(rule.renamed_variant(v)),
        rule.renamed_variant(rule.renamed_variant(v)) == rule.renamed_variant(v),
{
    match rule {
        RenameRule::Lower => lemma_lower_idempotent(v),
        RenameRule::Upper => lemma_upper_idempotent(v),
        RenameRule::Pascal => {},
        RenameRule::Camel => {
            let x = seq![ascii_lower(v[0])] + v.drop_first();
            assert(x[0] == ascii_lower(v[0]));
            assert(x.drop_first() =~= v.drop_first());
        },
        RenameRule::Snake => {
            lemma_split_ascii(v, 0);
            lemma_lower_plain(split_words(v));
            let t = lower_all(split_words(v));
            lemma_split_identity(t);
            lemma_lower_identity(t);
        },
        RenameRule::Kebab => {
            lemma_split_ascii(v, 0);
            lemma_lower_plain(split_words(v));
            let t = lower_all(split_words(v));
            lemma_replace_plain(t);
            let k = replace_char(t, '_', seq!['-']);
            lemma_split_identity(k);
            lemma_lower_identity(k);
            lemma_replace_leaves_no_underscore(t);
            lemma_replace_without_underscore(k);
        },
        _ => {},
    }
}

} // verus!
