//! Reading of `#[serde(...)]` attributes: the field attributes `skip` and
//! `rename = "..."`, and the container attributes `rename_all = "..."` and
//! `tag = "..."`.

pub use crate::rename_rule::RenameRule;

use crate::diagnostics::SpannedError;
use crate::rename_rule::UNEXPECTED_RENAME_RULE;
use crate::syntax::{Attribute, Token};
use crate::text::{replace_char, replace_char_in};
use proc_macro2::Span;
use vstd::prelude::*;

verus! {

/// Whether `token` is the identifier `name`.
pub open spec fn is_ident_token(token: Token, name: Seq<char>) -> bool {
    token matches Token::Ident(ident) && ident@ == name
}

/// The position of the literal that the tokens from `i` on give as a value:
/// any number of `=` and then a literal; none if anything else comes first.
pub open spec fn literal_after(tokens: Seq<Token>, i: int) -> Option<int>
    decreases tokens.len() - i,
{
    if 0 <= i < tokens.len() {
        match tokens[i] {
            Token::Punct(c) => if c == '=' {
                literal_after(tokens, i + 1)
            } else {
                None
            },
            Token::Literal(_, _) => Some(i),
            _ => None,
        }
    } else {
        None
    }
}

/// The text of a literal token with every `"` taken out.
pub open spec fn literal_text(token: Token) -> Seq<char> {
    match token {
        Token::Literal(text, _) => replace_char(text@, '"', seq![]),
        _ => seq![],
    }
}

/// The text of the literal that the tokens from `i` on give as a value.
pub open spec fn literal_value(tokens: Seq<Token>, i: int) -> Option<Seq<char>> {
    match literal_after(tokens, i) {
        Some(k) => Some(literal_text(tokens[k])),
        None => None,
    }
}

/// The characters of an optional string.
pub open spec fn opt_chars(s: Option<String>) -> Option<Seq<char>> {
    match s {
        Some(s) => Some(s@),
        None => None,
    }
}

/// The value given by the last `rename` among the first `n` tokens that a
/// literal follows.
pub open spec fn last_rename(tokens: Seq<Token>, n: int) -> Option<Seq<char>>
    decreases n,
{
    if n <= 0 || n > tokens.len() {
        None
    } else if is_ident_token(tokens[n - 1], "rename"@) && literal_value(tokens, n) is Some {
        literal_value(tokens, n)
    } else {
        last_rename(tokens, n - 1)
    }
}

/// `Some(true)` when one of the first `n` tokens is the identifier `skip`.
pub open spec fn skip_among(tokens: Seq<Token>, n: int) -> Option<bool> {
    if exists|i: int| 0 <= i < n && is_ident_token(tokens[i], "skip"@) {
        Some(true)
    } else {
        None
    }
}

/// The text and the span of the literal that the tokens from `next` on give
/// as a value: any number of `=` and then a literal, whose `"` are taken out.
pub fn parse_next_lit_str(tokens: &[Token], next: usize) -> (lit: Option<(String, Span)>)
    ensures
        match literal_after(tokens@, next as int) {
            Some(k) => {
                &&& lit is Some
                &&& lit.unwrap().0@ == literal_text(tokens@[k])
                &&& tokens@[k] matches Token::Literal(_, span) && span == lit.unwrap().1
            },
            None => lit is None,
        },
    decreases tokens@.len() - next,
{
    if next < tokens.len() {
        match &tokens[next] {
            Token::Punct(punct) => {
                if *punct == '=' {
                    parse_next_lit_str(tokens, next + 1)
                } else {
                    None
                }
            },
            Token::Literal(literal, span) => {
                proof {
                    reveal_strlit("");
                    assert(""@ =~= Seq::<char>::empty());
                }
                Some((replace_char_in(literal.as_str(), '"', ""), *span))
            },
            _ => None,
        }
    } else {
        None
    }
}

/// The attributes of a field that `#[serde(...)]` gives.
pub struct SerdeValue {
    /// `Some(true)` when `skip` is given.
    pub skip: Option<bool>,
    /// The name that `rename = "..."` gives.
    pub rename: Option<String>,
}

impl Default for SerdeValue {
    fn default() -> (value: SerdeValue)
        ensures
            value.skip is None,
            value.rename is None,
    {
        SerdeValue { skip: None, rename: None }
    }
}

impl SerdeValue {
    /// The field attributes in the token trees of one `#[serde(...)]`: `skip`
    /// anywhere, and the last `rename` that a literal follows.
    pub fn parse(tokens: &[Token]) -> (value: SerdeValue)
        ensures
            value.skip == skip_among(tokens@, tokens@.len() as int),
            opt_chars(value.rename) == last_rename(tokens@, tokens@.len() as int),
    {
        let mut value = SerdeValue::default();

        for index in 0..tokens.len()
            invariant
                value.skip == skip_among(tokens@, index as int),
                opt_chars(value.rename) == last_rename(tokens@, index as int),
        {
            proof {
                reveal_strlit("skip");
                reveal_strlit("rename");
            }
            match &tokens[index] {
                Token::Ident(ident) => {
                    if ident.as_str().eq("skip") {
                        value.skip = Some(true);
                        assert("skip"@.len() == 4);
                        assert("rename"@.len() == 6);


                    } else if ident.as_str().eq("rename") {
                        if let Some((literal, _)) = parse_next_lit_str(tokens, index + 1) {
                            value.rename = Some(literal);
                        }
                    }
                },
                _ => {},
            }
            assert(is_ident_token(tokens@[index as int], "skip"@) ==> exists|i: int|
                0 <= i < index + 1 && is_ident_token(tokens@[i], "skip"@));
        }

        value
    }
}

/// The state of the container attributes: the rule of `rename_all` and the text of `tag`.
pub type ContainerState = (Option<RenameRule>, Option<Seq<char>>);

/// The container attributes after reading the identifier `ident`, whose value
/// the tokens from `next` on give; `None` when `rename_all` is given a name
/// that is no rule.
pub open spec fn attribute_step(
    state: ContainerState,
    ident: Seq<char>,
    tokens: Seq<Token>,
    next: int,
) -> Option<ContainerState> {
    if ident == "rename_all"@ {
        match literal_value(tokens, next) {
            Some(name) => match RenameRule::from_name(name) {
                Some(rule) => Some((Some(rule), state.1)),
                None => None,
            },
            None => Some(state),
        }
    } else if ident == "tag"@ {
        match literal_value(tokens, next) {
            Some(tag) => Some((state.0, Some(tag))),
            None => Some(state),
        }
    } else {
        Some(state)
    }
}

/// The container attributes after the first `n` tokens; `None` once a
/// `rename_all` among them is given a name that is no rule.
pub open spec fn container_after(tokens: Seq<Token>, n: int) -> Option<ContainerState>
    decreases n,
{
    if n <= 0 {
        Some((None, None))
    } else {
        match container_after(tokens, n - 1) {
            Some(state) => match tokens[n - 1] {
                Token::Ident(ident) => attribute_step(state, ident@, tokens, n),
                _ => Some(state),
            },
            None => None,
        }
    }
}

/// Once the container attributes are in error, further tokens keep them so.
proof fn lemma_container_error_persists(tokens: Seq<Token>, i: int, n: int)
    requires
        i <= n,
        container_after(tokens, i) is None,
    ensures
        container_after(tokens, n) is None,
    decreases n - i,
{
    if i < n {
        lemma_container_error_persists(tokens, i + 1, n);
    }
}

/// Attributes defined within a `#[serde(...)]` container attribute.
pub struct SerdeContainer {
    pub rename_all: Option<RenameRule>,
    pub tag: Option<String>,
}

impl Default for SerdeContainer {
    fn default() -> (container: SerdeContainer)
        ensures
            container.rename_all is None,
            container.tag is None,
    {
        SerdeContainer { rename_all: None, tag: None }
    }
}

/// Whether `error` is the one for a `rename_all` value that names no rule: the
/// message that lists the accepted names, at the span of the literal that the
/// tokens from `next` on give as the value.
pub open spec fn is_unknown_rule_error(error: SpannedError, tokens: Seq<Token>, next: int) -> bool {
    &&& error.message@ == UNEXPECTED_RENAME_RULE@
    &&& literal_after(tokens, next) matches Some(k)
    &&& tokens[k] matches Token::Literal(_, span)
    &&& error.span == span
}

/// The position of the first token from `i` on that is a `rename_all` whose
/// value names no rule.
pub open spec fn first_bad_rename_all_from(tokens: Seq<Token>, i: int) -> Option<int>
    decreases tokens.len() - i,
{
    if 0 <= i < tokens.len() {
        if is_bad_rename_all(tokens, i) {
            Some(i)
        } else {
            first_bad_rename_all_from(tokens, i + 1)
        }
    } else {
        None
    }
}

/// Skipping tokens that are no bad `rename_all` does not change which one comes first.
proof fn lemma_first_bad_skips(tokens: Seq<Token>, i: int, n: int)
    requires
        0 <= i <= n <= tokens.len(),
        forall|j: int| i <= j < n ==> !is_bad_rename_all(tokens, j),
    ensures
        first_bad_rename_all_from(tokens, i) == first_bad_rename_all_from(tokens, n),
    decreases n - i,
{
    if i < n {
        lemma_first_bad_skips(tokens, i + 1, n);
    }
}

impl SerdeContainer {
    /// The state that the container's fields hold.
    pub open spec fn state(&self) -> ContainerState {
        (self.rename_all, opt_chars(self.tag))
    }

    /// Reads one serde attribute, currently `rename_all = ...` and `tag = ...`
    /// are supported; `next` is where the tokens after the identifier begin.
    pub fn parse_attribute(&mut self, ident: &str, tokens: &[Token], next: usize) -> (res: Result<
        (),
        SpannedError,
    >)
        ensures
            match attribute_step(old(self).state(), ident@, tokens@, next as int) {
                Some(state) => res is Ok && final(self).state() == state,
                None => {
                    &&& res is Err
                    &&& is_unknown_rule_error(res->Err_0, tokens@, next as int)
                    &&& final(self).state() == old(self).state()
                },
            },
    {
        if ident.eq("rename_all") {
            if let Some((literal, span)) = parse_next_lit_str(tokens, next) {
                match RenameRule::parse_rule(literal.as_str()) {
                    Ok(rule) => {
                        self.rename_all = Some(rule);
                    },
                    Err(error) => {
                        return Err(SpannedError { span, message: error.message });
                    },
                }
            }
        } else if ident.eq("tag") {
            if let Some((literal, _span)) = parse_next_lit_str(tokens, next) {
                self.tag = Some(literal);
            }
        }
        Ok(())
    }

    /// The container attributes in the token trees of one `#[serde(...)]`; the
    /// error of the first `rename_all` whose value names no rule, if any.
    pub fn parse(tokens: &[Token]) -> (res: Result<SerdeContainer, SpannedError>)
        ensures
            res is Ok <==> container_after(tokens@, tokens@.len() as int) is Some,
            match first_bad_rename_all_from(tokens@, 0) {
                Some(k) => res is Err && is_unknown_rule_error(res->Err_0, tokens@, k + 1),
                None => res is Ok && container_after(tokens@, tokens@.len() as int) == Some(
                    res->Ok_0.state(),
                ),
            },
    {
        let mut container = SerdeContainer::default();

        for index in 0..tokens.len()
            invariant
                container_after(tokens@, index as int) == Some(container.state()),
                forall|j: int| 0 <= j < index ==> !is_bad_rename_all(tokens@, j),
        {
            if let Token::Ident(ident) = &tokens[index] {
                let step = container.parse_attribute(ident.as_str(), tokens, index + 1);
                if step.is_err() {
                    proof {
                        lemma_container_error_persists(
                            tokens@,
                            index + 1,
                            tokens@.len() as int,
                        );
                        lemma_first_bad_skips(tokens@, 0, index as int);
                    }
                    return match step {
                        Err(error) => Err(error),
                        Ok(()) => Ok(container),
                    };
                }
            }
        }
        proof {
            lemma_first_bad_skips(tokens@, 0, tokens@.len() as int);
        }

        Ok(container)
    }
}

/// The position of the first attribute from `i` on that is `#[serde(...)]`.
pub open spec fn first_serde_from(attributes: Seq<Attribute>, i: int) -> Option<int>
    decreases attributes.len() - i,
{
    if 0 <= i < attributes.len() {
        if attributes[i].path.ident_of() == Some("serde"@) {
            Some(i)
        } else {
            first_serde_from(attributes, i + 1)
        }
    } else {
        None
    }
}

/// Why reading the container attributes failed.
#[derive(Debug)]
pub enum SerdeError<'a> {
    /// The arguments of the `#[serde(...)]` attribute are not in delimiters:
    /// the error that the attribute itself holds.
    Arguments(&'a syn::Error),
    /// A `rename_all` value names no rule.
    UnknownRule(SpannedError),
}

/// The field attributes of the first `#[serde(...)]` among `attributes`; the
/// error of that attribute's arguments when they are not in delimiters.
pub fn parse_value<'a>(attributes: &'a [Attribute]) -> (value: Result<
    Option<SerdeValue>,
    &'a syn::Error,
>)
    ensures
        match first_serde_from(attributes@, 0) {
            None => value matches Ok(None),
            Some(i) => match attributes@[i].args {
                Ok(tokens) => {
                    &&& value matches Ok(Some(_))
                    &&& value.unwrap().unwrap().skip == skip_among(tokens@, tokens@.len() as int)
                    &&& opt_chars(value.unwrap().unwrap().rename) == last_rename(
                        tokens@,
                        tokens@.len() as int,
                    )
                },
                Err(error) => value is Err && *value->Err_0 == error,
            },
        },
{
    for index in 0..attributes.len()
        invariant
            first_serde_from(attributes@, 0) == first_serde_from(attributes@, index as int),
    {
        let attribute = &attributes[index];
        if attribute.path.is_ident("serde") {
            return match &attribute.args {
                Ok(tokens) => Ok(Some(SerdeValue::parse(tokens.as_slice()))),
                Err(error) => Err(error),
            };
        }
    }
    Ok(None)
}

/// The container attributes of the first `#[serde(...)]` among `attributes`;
/// an error when that attribute's arguments are not in delimiters or give
/// `rename_all` a name that is no rule.
pub fn parse_container<'a>(attributes: &'a [Attribute]) -> (container: Result<
    Option<SerdeContainer>,
    SerdeError<'a>,
>)
    ensures
        match first_serde_from(attributes@, 0) {
            None => container matches Ok(None),
            Some(i) => match attributes@[i].args {
                Ok(tokens) => match first_bad_rename_all_from(tokens@, 0) {
                    Some(k) => {
                        &&& container is Err
                        &&& container->Err_0 is UnknownRule
                        &&& is_unknown_rule_error(container->Err_0->UnknownRule_0, tokens@, k + 1)
                    },
                    None => {
                        &&& container matches Ok(Some(_))
                        &&& container_after(tokens@, tokens@.len() as int) == Some(
                            container.unwrap().unwrap().state(),
                        )
                    },
                },
                Err(error) => {
                    &&& container is Err
                    &&& container->Err_0 is Arguments
                    &&& *container->Err_0->Arguments_0 == error
                },
            },
        },
{
    for index in 0..attributes.len()
        invariant
            first_serde_from(attributes@, 0) == first_serde_from(attributes@, index as int),
    {
        let attribute = &attributes[index];
        if attribute.path.is_ident("serde") {
            return match &attribute.args {
                Ok(tokens) => match SerdeContainer::parse(tokens.as_slice()) {
                    Ok(c) => Ok(Some(c)),
                    Err(error) => Err(SerdeError::UnknownRule(error)),
                },
                Err(error) => Err(SerdeError::Arguments(error)),
            };
        }
    }
    Ok(None)
}

/// Whether the token at position `i` is a `rename_all` whose value names no rule.
pub open spec fn is_bad_rename_all(tokens: Seq<Token>, i: int) -> bool {
    &&& is_ident_token(tokens[i], "rename_all"@)
    &&& literal_value(tokens, i + 1) matches Some(name)
    &&& RenameRule::from_name(name) is None
}

/// Reading the container attributes fails exactly when one of the tokens is a
/// `rename_all` whose value names no rule.
pub proof fn law_container_fails_on_unknown_rule(tokens: Seq<Token>, n: int)
    requires
        0 <= n <= tokens.len(),
    ensures
        container_after(tokens, n) is None <==> exists|i: int|
            0 <= i < n && is_bad_rename_all(tokens, i),
    decreases n,
{
    if n > 0 {
        law_container_fails_on_unknown_rule(tokens, n - 1);
        if is_bad_rename_all(tokens, n - 1) {
            assert(exists|i: int| 0 <= i < n && is_bad_rename_all(tokens, i));
        }
        if exists|i: int| 0 <= i < n && is_bad_rename_all(tokens, i) {
            let i = choose|i: int| 0 <= i < n && is_bad_rename_all(tokens, i);
            if i < n - 1 {
                assert(container_after(tokens, n - 1) is None);
            }
        }
    }
}

/// Taking every `"` out of a text leaves none.
proof fn lemma_no_quote_left(text: Seq<char>)
    ensures
        forall|k: int|
            0 <= k < replace_char(text, '"', seq![]).len() ==> replace_char(text, '"', seq![])[k]
                != '"',
    decreases text.len(),
{
    if text.len() > 0 {
        lemma_no_quote_left(text.drop_first());
        let head: Seq<char> = if text[0] == '"' { seq![] } else { seq![text[0]] };
        let tail = replace_char(text.drop_first(), '"', seq![]);
        assert forall|k: int| 0 <= k < (head + tail).len() implies (head + tail)[k] != '"' by {
            if k >= head.len() {
                assert((head + tail)[k] == tail[k - head.len()]);
            }
        }
    }
}

/// The value that a literal gives holds no `"`: the quotes of a string
/// literal, and any other `"` in it, are taken out.
pub proof fn law_literal_values_hold_no_quotes(token: Token)
    ensures
        forall|k: int| 0 <= k < literal_text(token).len() ==> literal_text(token)[k] != '"',
{
    if let Token::Literal(text, _) = token {
        lemma_no_quote_left(text@);
    }
}

/// The value given by the last `tag` among the first `n` tokens that a literal follows.
pub open spec fn last_tag(tokens: Seq<Token>, n: int) -> Option<Seq<char>>
    decreases n,
{
    if n <= 0 || n > tokens.len() {
        None
    } else if tokens[n - 1] matches Token::Ident(id) && id@ == "tag"@ && literal_value(
        tokens,
        n,
    ) is Some {
        literal_value(tokens, n)
    } else {
        last_tag(tokens, n - 1)
    }
}

/// The rule named by the last `rename_all` among the first `n` tokens that a literal follows.
pub open spec fn last_rename_all(tokens: Seq<Token>, n: int) -> Option<RenameRule>
    decreases n,
{
    if n <= 0 || n > tokens.len() {
        None
    } else if tokens[n - 1] matches Token::Ident(id) && id@ == "rename_all"@ && literal_value(
        tokens,
        n,
    ) is Some {
        RenameRule::from_name(literal_value(tokens, n)->0)
    } else {
        last_rename_all(tokens, n - 1)
    }
}

/// When the container attributes are read without error, the tag is the value
/// of the last `tag = "..."` and the rule is the one the last
/// `rename_all = "..."` names, whatever other attributes stand around them:
/// reading `rename_all` leaves the tag read so far alone, and reading `tag`
/// leaves the rule alone.
pub proof fn law_container_keeps_last_tag_and_rule(tokens: Seq<Token>, n: int)
    requires
        0 <= n <= tokens.len(),
        container_after(tokens, n) is Some,
    ensures
        container_after(tokens, n).unwrap().1 == last_tag(tokens, n),
        container_after(tokens, n).unwrap().0 == last_rename_all(tokens, n),
    decreases n,
{
    reveal_strlit("tag");
    reveal_strlit("rename_all");
    assert("tag"@.len() == 3);
    assert("rename_all"@.len() == 10);
    if n > 0 {
        assert(container_after(tokens, n - 1) is Some);
        law_container_keeps_last_tag_and_rule(tokens, n - 1);
    }
}

/// The field is skipped exactly when one of the tokens is the identifier
/// `skip` itself: an identifier that only begins with `skip`, such as
/// `skip_serializing_if`, or any other identifier, does not count.
pub proof fn law_skip_is_the_skip_identifier_alone(tokens: Seq<Token>, n: int)
    requires
        0 <= n <= tokens.len(),
    ensures
        skip_among(tokens, n) == Some(true) <==> exists|i: int|
            0 <= i < n && (#[trigger] tokens[i] matches Token::Ident(id) && id@ =~= seq![
                's',
                'k',
                'i',
                'p',
            ]),
        skip_among(tokens, n) is Some ==> skip_among(tokens, n) == Some(true),
{
    reveal_strlit("skip");
    assert("skip"@ =~= seq!['s', 'k', 'i', 'p']);
}

/// Appending an identifier other than `skip` does not make a field skipped.
pub proof fn law_other_identifier_does_not_skip(tokens: Seq<Token>, name: String)
    requires
        name@ != seq!['s', 'k', 'i', 'p'],
    ensures
        skip_among(tokens.push(Token::Ident(name)), tokens.len() + 1 as int) == skip_among(
            tokens,
            tokens.len() as int,
        ),
{
    reveal_strlit("skip");
    assert("skip"@ =~= seq!['s', 'k', 'i', 'p']);
    let longer = tokens.push(Token::Ident(name));
    assert forall|i: int| 0 <= i < tokens.len() implies longer[i] == tokens[i] by {}
    if exists|i: int| 0 <= i < tokens.len() + 1 && is_ident_token(longer[i], "skip"@) {
        let i = choose|i: int| 0 <= i < tokens.len() + 1 && is_ident_token(longer[i], "skip"@);
        assert(i < tokens.len());
        assert(is_ident_token(tokens[i], "skip"@));
    }
    if exists|i: int| 0 <= i < tokens.len() && is_ident_token(tokens[i], "skip"@) {
        let i = choose|i: int| 0 <= i < tokens.len() && is_ident_token(tokens[i], "skip"@);
        assert(is_ident_token(longer[i], "skip"@));
    }
}

} // verus!
