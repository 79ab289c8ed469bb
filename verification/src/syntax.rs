//! The parts of the Rust syntax tree that the schema logic reads, as plain
//! values: paths, types, attributes and the token trees inside an attribute.

use proc_macro2::Span;
use vstd::prelude::*;

verus! {

/// What follows a path segment's identifier.
pub enum PathArguments {
    /// Nothing, as in `Vec`.
    Bare,
    /// `<...>`, as in `Vec<T>`, with its arguments in order.
    AngleBracketed(Vec<GenericArgument>),
    /// `(...)`, as in `Fn(A) -> B`.
    Parenthesized,
}

/// One argument between angle brackets.
pub enum GenericArgument {
    /// A lifetime such as `'a`.
    Lifetime,
    /// A type.
    Type(Type),
    /// A const argument, an associated type binding or a constraint, with its span.
    Other(Span),
}

/// One segment of a path: an identifier and what follows it.
pub struct PathSegment {
    /// The identifier as it is written (a raw one with its `r#`).
    pub ident: String,
    /// Where the identifier stands in the source.
    pub ident_span: Span,
    pub arguments: PathArguments,
}

/// A path such as `std::collections::HashMap<K, V>`.
pub struct Path {
    /// Whether the path starts with `::`.
    pub leading_colon: bool,
    pub segments: Vec<PathSegment>,
    /// Whether a `::` follows the last segment.
    pub trailing_colon: bool,
}

/// A type, as far as the schema logic tells types apart.
pub enum Type {
    /// A path type such as `Vec<String>`.
    Path(Path),
    /// A reference `&T` or `&mut T`, with its element type.
    Reference(Box<Type>),
    /// A type in an invisible group, with its element type.
    Group(Box<Type>),
    /// Any other type: a tuple, an array, a slice, a function pointer, ...
    Other,
}

/// One token tree inside an attribute's parentheses.
pub enum Token {
    /// An identifier as it is written (a raw one with its `r#`).
    Ident(String),
    /// A punctuation character.
    Punct(char),
    /// A literal, as it is written in the source (a string with its quotes), and its span.
    Literal(String, Span),
    /// A delimited group.
    Group,
}

/// An outer attribute `#[path ...]`.
pub struct Attribute {
    pub path: Path,
    /// The token trees inside the attribute's delimiters, or the error that
    /// `syn::Attribute::parse_args` gives when the attribute has no single
    /// delimited group of arguments.
    pub args: Result<Vec<Token>, syn::Error>,
}

impl PathArguments {
    /// Whether nothing stands between the segment's delimiters.
    pub open spec fn spec_is_empty(&self) -> bool {
        match self {
            PathArguments::Bare => true,
            PathArguments::AngleBracketed(args) => args@.len() == 0,
            PathArguments::Parenthesized => false,
        }
    }

    /// Whether nothing stands between the segment's delimiters (none at all, or `<>`).
    #[verifier::when_used_as_spec(spec_is_empty)]
    pub fn is_empty(&self) -> (empty: bool)
        ensures
            empty == self.spec_is_empty(),
    {
        match self {
            PathArguments::Bare => true,
            PathArguments::AngleBracketed(args) => args.len() == 0,
            PathArguments::Parenthesized => false,
        }
    }
}

impl Path {
    /// The path's identifier when the path is a single identifier: no leading
    /// `::`, one segment, and nothing after the segment's identifier.
    pub open spec fn ident_of(&self) -> Option<Seq<char>> {
        if !self.leading_colon && self.segments@.len() == 1
            && self.segments@[0].arguments is Bare {
            Some(self.segments@[0].ident@)
        } else {
            None
        }
    }

    /// The path's identifier when the path is a single identifier.
    pub fn get_ident(&self) -> (ident: Option<&String>)
        ensures
            ident is Some <==> self.ident_of() is Some,
            ident matches Some(i) ==> self.ident_of() == Some(i@),
    {
        if !self.leading_colon && self.segments.len() == 1 {
            match &self.segments[0].arguments {
                PathArguments::Bare => Some(&self.segments[0].ident),
                _ => None,
            }
        } else {
            None
        }
    }

    /// Whether the path is the single identifier `ident`.
    pub fn is_ident(&self, ident: &str) -> (is: bool)
        ensures
            is == (self.ident_of() == Some(ident@)),
    {
        match self.get_ident() {
            Some(id) => id.as_str().eq(ident),
            None => false,
        }
    }
}

} // verus!
