//! The resolution of a field's Rust type into a linked list of component
//! parts: `Option<Vec<String>>` becomes `Option` -> `Vec` -> `String`.

use crate::component_type::{is_primitive_name, ComponentType};
use crate::syntax::{GenericArgument, Path, PathArguments, PathSegment, Type};
use proc_macro2::Span;
use vstd::prelude::*;

verus! {

/// Whether a component is an OpenAPI primitive or an object.
#[derive(Debug, Clone, Copy, PartialEq, Eq)]
pub enum ValueType {
    Primitive,
    Object,
}

/// The generic wrappers that a component part can be.
#[derive(Debug, Clone, Copy, PartialEq, Eq)]
pub enum GenericType {
    Vec,
    Dictionary,
    Option,
    Cow,
    Box,
    RefCell,
}

/// The path that a type names: the type itself when it is a path, the
/// element of a reference when that element is a path, and the path inside
/// an invisible group; none for any other type.
pub open spec fn type_path_of(ty: Type) -> Option<Path>
    decreases ty,
{
    match ty {
        Type::Path(path) => Some(path),
        Type::Reference(elem) => match *elem {
            Type::Path(path) => Some(path),
            _ => None,
        },
        Type::Group(elem) => type_path_of(*elem),
        Type::Other => None,
    }
}

/// The last segment of a path, when the path has one and no `::` after it.
pub open spec fn last_segment(path: Path) -> Option<PathSegment> {
    if !path.trailing_colon && path.segments@.len() > 0 {
        Some(path.segments@.last())
    } else {
        None
    }
}

/// The segment that names a type: the last one of the type's path.
pub open spec fn type_segment(ty: Type) -> Option<PathSegment> {
    match type_path_of(ty) {
        Some(path) => last_segment(path),
        None => None,
    }
}

/// Whether every generic argument is a lifetime.
pub open spec fn all_lifetimes(args: Seq<GenericArgument>) -> bool {
    forall|k: int| 0 <= k < args.len() ==> args[k] is Lifetime
}

/// The type argument that comes first after skipping the lifetimes from
/// position `i` on; none when the first argument that is no lifetime is no
/// type, or when there is none.
pub open spec fn first_type_argument(args: Seq<GenericArgument>, i: int) -> Option<Type>
    decreases args.len() - i,
{
    if 0 <= i < args.len() {
        match args[i] {
            GenericArgument::Type(ty) => Some(ty),
            GenericArgument::Lifetime => first_type_argument(args, i + 1),
            GenericArgument::Other(_) => None,
        }
    } else {
        None
    }
}

/// The type argument that the component of a generic segment looks into:
/// the first one that is no lifetime; none when all arguments are lifetimes.
pub open spec fn argument_type(segment: PathSegment) -> Option<Type> {
    match segment.arguments {
        PathArguments::AngleBracketed(args) => if all_lifetimes(args@) {
            None
        } else {
            first_type_argument(args@, 0)
        },
        _ => None,
    }
}

/// The segment that names the type argument of a generic segment.
pub open spec fn child_segment(segment: PathSegment) -> Option<PathSegment> {
    match argument_type(segment) {
        Some(ty) => type_segment(ty),
        None => None,
    }
}

/// The path of a type is part of the type.
pub proof fn lemma_type_path_within(ty: Type)
    ensures
        type_path_of(ty) matches Some(path) ==> decreases_to!(ty => path),
    decreases ty,
{
    match ty {
        Type::Reference(elem) => {
            assert(decreases_to!(ty => *elem));
        },
        Type::Group(elem) => {
            lemma_type_path_within(*elem);
            assert(decreases_to!(ty => *elem));
        },
        _ => {},
    }
}

/// The last segment of a path is part of the path.
pub proof fn lemma_last_segment_within(path: Path)
    ensures
        last_segment(path) matches Some(segment) ==> decreases_to!(path => segment),
{
    if last_segment(path) is Some {
        let k = path.segments@.len() - 1;
        assert(decreases_to!(path => path.segments));
        assert(decreases_to!(path.segments => path.segments@));
        assert(decreases_to!(path.segments@ => path.segments@[k]));
    }
}

/// The first type argument from `i` on is part of the argument list.
pub proof fn lemma_first_type_argument_within(args: Vec<GenericArgument>, i: int)
    ensures
        first_type_argument(args@, i) matches Some(ty) ==> decreases_to!(args => ty),
    decreases args@.len() - i,
{
    if 0 <= i < args@.len() {
        match args@[i] {
            GenericArgument::Type(ty) => {
                assert(decreases_to!(args => args@));
                assert(decreases_to!(args@ => args@[i]));
            },
            GenericArgument::Lifetime => lemma_first_type_argument_within(args, i + 1),
            GenericArgument::Other(_) => {},
        }
    }
}

/// The type argument of a generic segment is part of the segment.
pub proof fn lemma_argument_type_within(segment: PathSegment)
    ensures
        argument_type(segment) matches Some(ty) ==> decreases_to!(segment => ty),
{
    if let PathArguments::AngleBracketed(args) = segment.arguments {
        lemma_first_type_argument_within(args, 0);
        assert(decreases_to!(segment => segment.arguments));
    }
}

/// The segment of a generic segment's type argument is part of the segment.
pub proof fn lemma_child_segment_within(segment: PathSegment)
    ensures
        child_segment(segment) matches Some(child) ==> decreases_to!(segment => child),
{
    if let Some(ty) = argument_type(segment) {
        lemma_argument_type_within(segment);
        lemma_type_path_within(ty);
        if let Some(path) = type_path_of(ty) {
            lemma_last_segment_within(path);
        }
    }
}

/// The generic wrapper that a type name stands for, if any.
pub open spec fn generic_of_name(name: Seq<char>) -> Option<GenericType> {
    if name == "HashMap"@ || name == "Map"@ || name == "BTreeMap"@ {
        Some(GenericType::Dictionary)
    } else if name == "Vec"@ {
        Some(GenericType::Vec)
    } else if name == "Option"@ {
        Some(GenericType::Option)
    } else if name == "Cow"@ {
        Some(GenericType::Cow)
    } else if name == "Box"@ {
        Some(GenericType::Box)
    } else if name == "RefCell"@ {
        Some(GenericType::RefCell)
    } else {
        None
    }
}

/// A component part as a mathematical value.
pub struct ComponentPartView {
    pub ident: Seq<char>,
    pub value_type: ValueType,
    pub generic_type: Option<GenericType>,
    pub child: Option<Box<ComponentPartView>>,
}

/// The component part of the type named `ident`, before its child is known.
pub open spec fn converted(ident: Seq<char>) -> ComponentPartView {
    ComponentPartView {
        ident,
        value_type: if is_primitive_name(ident) {
            ValueType::Primitive
        } else {
            ValueType::Object
        },
        generic_type: generic_of_name(ident),
        child: None,
    }
}

/// Whether a segment resolves into component parts: its arguments are empty,
/// or they are angle-bracketed and either all lifetimes or led (after the
/// lifetimes) by a type whose own segment resolves.
pub open spec fn segment_resolves(segment: PathSegment) -> bool
    decreases segment,
{
    if segment.arguments.spec_is_empty() {
        true
    } else {
        match segment.arguments {
            PathArguments::AngleBracketed(args) => all_lifetimes(args@) || match child_segment(
                segment,
            ) {
                Some(child) => {
                    proof {
                        lemma_child_segment_within(segment);
                    }
                    segment_resolves(child)
                },
                None => false,
            },
            _ => false,
        }
    }
}

/// The component parts of a segment: the segment's own part, and as its
/// child the parts of its first type argument, if it has one.
pub open spec fn segment_component(segment: PathSegment) -> ComponentPartView
    decreases segment,
{
    let base = converted(segment.ident@);
    if segment.arguments.spec_is_empty() {
        base
    } else {
        match child_segment(segment) {
            Some(child) => {
                proof {
                    lemma_child_segment_within(segment);
                }
                ComponentPartView { child: Some(Box::new(segment_component(child))), ..base }
            },
            None => base,
        }
    }
}

/// Whether a type resolves into component parts.
pub open spec fn resolves(ty: Type) -> bool {
    type_segment(ty) matches Some(segment) && segment_resolves(segment)
}

/// The component parts of a type.
pub open spec fn component_of(ty: Type) -> ComponentPartView {
    segment_component(type_segment(ty)->0)
}

/// Linked list of implementing types of a field in a struct.
pub struct ComponentPart<'a> {
    pub ident: &'a String,
    pub value_type: ValueType,
    pub generic_type: Option<GenericType>,
    pub child: Option<Box<ComponentPart<'a>>>,
}

/// A component part as a mathematical value.
pub open spec fn part_view<'a>(part: ComponentPart<'a>) -> ComponentPartView
    decreases part,
{
    ComponentPartView {
        ident: part.ident@,
        value_type: part.value_type,
        generic_type: part.generic_type,
        child: match part.child {
            Some(child) => Some(Box::new(part_view(*child))),
            None => None,
        },
    }
}

impl<'a> View for ComponentPart<'a> {
    type V = ComponentPartView;

    open spec fn view(&self) -> ComponentPartView {
        part_view(*self)
    }
}

impl<'a> ComponentPart<'a> {
    /// The component parts of a field's type.
    pub fn from_type(ty: &'a Type) -> (part: ComponentPart<'a>)
        requires
            resolves(*ty),
        ensures
            part@ == component_of(*ty),
        decreases *ty,
    {
        proof {
            lemma_type_path_within(*ty);
        }
        ComponentPart::from_type_path(Self::get_type_path(ty))
    }

    pub fn get_type_path(ty: &'a Type) -> (path: &'a Path)
        requires
            type_path_of(*ty) is Some,
        ensures
            *path == type_path_of(*ty)->0,
        decreases *ty,
    {
        match ty {
            Type::Path(path) => path,
            Type::Reference(reference) => match &**reference {
                Type::Path(path) => path,
                _ => unreached(),
            },
            Type::Group(group) => Self::get_type_path(&**group),
            _ => unreached(),
        }
    }

    /// The segment that ends a path: the last one, when no `::` follows it.
    pub fn end_segment(path: &'a Path) -> (segment: Option<&'a PathSegment>)
        ensures
            segment is Some <==> last_segment(*path) is Some,
            segment matches Some(s) ==> last_segment(*path) == Some(*s),
    {
        if !path.trailing_colon && path.segments.len() > 0 {
            Some(&path.segments[path.segments.len() - 1])
        } else {
            None
        }
    }

    pub fn from_type_path(type_path: &'a Path) -> (part: ComponentPart<'a>)
        requires
            last_segment(*type_path) matches Some(segment) && segment_resolves(segment),
        ensures
            part@ == segment_component(last_segment(*type_path)->0),
        decreases *type_path,
    {
        proof {
            lemma_last_segment_within(*type_path);
        }
        let segment = Self::end_segment(type_path).unwrap();

        if segment.arguments.is_empty() {
            Self::convert(&segment.ident, segment)
        } else {
            Self::resolve_component_type(segment)
        }
    }

    // Only when type is a generic type we get to this function.
    pub fn resolve_component_type(segment: &'a PathSegment) -> (part: ComponentPart<'a>)
        requires
            !segment.arguments.spec_is_empty(),
            segment_resolves(*segment),
        ensures
            part@ == segment_component(*segment),
        decreases *segment,
    {
        proof {
            lemma_argument_type_within(*segment);
        }
        let mut generic_component_type = ComponentPart::convert(&segment.ident, segment);

        let generic_type = match &segment.arguments {
            PathArguments::AngleBracketed(angle_bracketed_args) => {
                // if all type arguments are lifetimes we ignore the generic type
                if Self::all_lifetimes(angle_bracketed_args) {
                    None
                } else {
                    Some(ComponentPart::get_generic_arg_type(0, angle_bracketed_args))
                }
            },
            _ => unreached(),
        };

        generic_component_type.child = match generic_type {
            Some(ty) => Some(Box::new(ComponentPart::from_type(ty))),
            None => None,
        };

        generic_component_type
    }

    pub fn all_lifetimes(args: &Vec<GenericArgument>) -> (all: bool)
        ensures
            all == all_lifetimes(args@),
    {
        for index in 0..args.len()
            invariant
                forall|k: int| 0 <= k < index ==> args@[k] is Lifetime,
        {
            if !matches!(args[index], GenericArgument::Lifetime) {
                return false;
            }
        }
        true
    }

    pub fn get_generic_arg_type(index: usize, args: &'a Vec<GenericArgument>) -> (ty: &'a Type)
        requires
            first_type_argument(args@, index as int) is Some,
        ensures
            *ty == first_type_argument(args@, index as int)->0,
        decreases args@.len() - index,
    {
        let generic_arg = if index < args.len() {
            Some(&args[index])
        } else {
            None
        };

        match generic_arg {
            Some(GenericArgument::Type(generic_type)) => generic_type,
            Some(GenericArgument::Lifetime) => ComponentPart::get_generic_arg_type(index + 1, args),
            _ => unreached(),
        }
    }

    pub fn convert(ident: &'a String, segment: &PathSegment) -> (part: ComponentPart<'a>)
        ensures
            part@ == (ComponentPartView { generic_type: generic_of_name(segment.ident@), ..converted(ident@) }),
    {
        let generic_type = ComponentPart::get_generic(segment);

        ComponentPart {
            ident,
            value_type: if ComponentType(ident).is_primitive() {
                ValueType::Primitive
            } else {
                ValueType::Object
            },
            generic_type,
            child: None,
        }
    }

    pub fn get_generic(segment: &PathSegment) -> (generic: Option<GenericType>)
        ensures
            generic == generic_of_name(segment.ident@),
    {
        let name = segment.ident.as_str();
        if "HashMap".eq(name) || "Map".eq(name) || "BTreeMap".eq(name) {
            Some(GenericType::Dictionary)
        } else if "Vec".eq(name) {
            Some(GenericType::Vec)
        } else if "Option".eq(name) {
            Some(GenericType::Option)
        } else if "Cow".eq(name) {
            Some(GenericType::Cow)
        } else if "Box".eq(name) {
            Some(GenericType::Box)
        } else if "RefCell".eq(name) {
            Some(GenericType::RefCell)
        } else {
            None
        }
    }
}

/// Whether every wrapper on the way down from `part` has a child: `find_mut_by_ident`
/// goes into the child of each `Vec`, `Option`, `Cow`, `Box` and `RefCell` part.
pub open spec fn wrappers_have_children(part: ComponentPartView) -> bool
    decreases part,
{
    match part.generic_type {
        Some(GenericType::Dictionary) | None => true,
        Some(_) => match part.child {
            Some(child) => wrappers_have_children(*child),
            None => false,
        },
    }
}

/// How many steps down from `part`, through its wrappers, the part named
/// `ident` stands; none when a map is reached first or the innermost part
/// has another name.
pub open spec fn depth_of_ident(part: ComponentPartView, ident: Seq<char>) -> Option<nat>
    decreases part,
{
    match part.generic_type {
        Some(GenericType::Dictionary) => None,
        Some(_) => match part.child {
            Some(child) => match depth_of_ident(*child, ident) {
                Some(d) => Some(d + 1),
                None => None,
            },
            None => None,
        },
        None => if part.ident == ident {
            Some(0)
        } else {
            None
        },
    }
}

/// The part `depth` steps down from `part`.
pub open spec fn part_at(part: ComponentPartView, depth: nat) -> ComponentPartView
    decreases depth,
{
    if depth == 0 {
        part
    } else {
        match part.child {
            Some(child) => part_at(*child, (depth - 1) as nat),
            None => part,
        }
    }
}

/// `part` with the part `depth` steps down replaced by `by`.
pub open spec fn replace_part_at(
    part: ComponentPartView,
    depth: nat,
    by: ComponentPartView,
) -> ComponentPartView
    decreases depth,
{
    if depth == 0 {
        by
    } else {
        match part.child {
            Some(child) => ComponentPartView {
                child: Some(Box::new(replace_part_at(*child, (depth - 1) as nat, by))),
                ..part
            },
            None => part,
        }
    }
}

impl<'a> ComponentPart<'a> {
    /// The innermost part, through the wrappers, when it is named `ident`.
    pub fn find_mut_by_ident(&mut self, ident: &'a String) -> (found: Option<&mut Self>)
        requires
            wrappers_have_children(old(self)@),
        ensures
            found is Some <==> depth_of_ident(old(self)@, ident@) is Some,
            found matches Some(part) ==> {
                let depth = depth_of_ident(old(self)@, ident@)->0;
                &&& part@ == part_at(old(self)@, depth)
                &&& final(self)@ == replace_part_at(old(self)@, depth, final(part)@)
            },
            found is None ==> final(self)@ == old(self)@,
        decreases *old(self),
    {
        match self.generic_type {
            Some(GenericType::Dictionary) => None,
            Some(GenericType::Vec) | Some(GenericType::Option) | Some(GenericType::Cow) | Some(
                GenericType::Box,
            ) | Some(GenericType::RefCell) => {
                match &mut self.child {
                    Some(child) => Self::find_mut_by_ident(&mut **child, ident),
                    None => unreached(),
                }
            },
            None => {
                if ident.as_str().eq(self.ident.as_str()) {
                    Some(self)
                } else {
                    None
                }
            },
        }
    }

    /// Points the part at another identifier.
    pub fn update_ident(&mut self, ident: &'a String)
        ensures
            final(self)@ == (ComponentPartView { ident: ident@, ..old(self)@ }),
    {
        self.ident = ident
    }

    /// `Any` virtual type is used when generic object is required in OpenAPI spec. Typically used
    /// with `value_type` attribute to hinder the actual type.
    pub fn is_any(&self) -> (any: bool)
        ensures
            any == (self.ident@ == "Any"@),
    {
        self.ident.as_str().eq("Any")
    }
}

/// Wrapper for a [`Type`] which will be resolved to [`ComponentPart`].
/// This used in `value_type` attribute to override the original field type of a struct.
pub struct TypeToken(pub Type);

impl TypeToken {
    /// Get the [`ComponentPart`] of the [`Type`].
    pub fn get_component_part(&self) -> (part: ComponentPart<'_>)
        requires
            resolves(self.0),
        ensures
            part@ == component_of(self.0),
    {
        ComponentPart::from_type(&self.0)
    }
}


/// A part is its own mutable view.
impl<'a> AsMut<ComponentPart<'a>> for ComponentPart<'a> {
    fn as_mut(&mut self) -> (part: &mut ComponentPart<'a>)
        ensures
            *part == *old(self),
            *final(self) == *final(part),
    {
        self
    }
}
/// References and invisible groups are looked through: a reference to a path
/// type, and a group around a type, resolve as the type inside does.
pub proof fn law_references_and_groups_are_transparent(path: Path, inner: Type)
    ensures
        resolves(Type::Reference(Box::new(Type::Path(path)))) == resolves(Type::Path(path)),
        component_of(Type::Reference(Box::new(Type::Path(path)))) == component_of(
            Type::Path(path),
        ),
        resolves(Type::Group(Box::new(inner))) == resolves(inner),
        component_of(Type::Group(Box::new(inner))) == component_of(inner),
{
}

/// After the part that `find_mut_by_ident` finds is given a new identifier,
/// looking up that new identifier finds the same part, at the same depth.
pub proof fn law_found_part_is_found_again(
    part: ComponentPartView,
    ident: Seq<char>,
    new_ident: Seq<char>,
)
    requires
        depth_of_ident(part, ident) is Some,
    ensures
        ({
            let depth = depth_of_ident(part, ident)->0;
            let renamed = replace_part_at(
                part,
                depth,
                ComponentPartView { ident: new_ident, ..part_at(part, depth) },
            );
            depth_of_ident(renamed, new_ident) == Some(depth)
        }),
    decreases part,
{
    match part.generic_type {
        Some(GenericType::Dictionary) => {},
        Some(_) => {
            let child = *part.child->0;
            law_found_part_is_found_again(child, ident, new_ident);
        },
        None => {},
    }
}

/// Why a type does not resolve into component parts.
#[derive(Debug, Clone, Copy)]
pub enum ResolveFailure {
    /// A reference whose element is no path type.
    ReferenceToNonPath,
    /// A type that is neither a path, a reference nor a group.
    UnsupportedType,
    /// A path with no segments, or with `::` after its last segment.
    MissingLastSegment,
    /// Parenthesized arguments, as in `Fn(A)`; the span of the segment's identifier.
    UnexpectedPathArguments(Span),
    /// A generic argument that is neither a type nor a lifetime comes first;
    /// the span of that argument.
    UnexpectedGenericArgument(Span),
}

/// Why a type names no path.
pub open spec fn type_path_failure(ty: Type) -> Option<ResolveFailure>
    decreases ty,
{
    match ty {
        Type::Path(_) => None,
        Type::Reference(elem) => match *elem {
            Type::Path(_) => None,
            _ => Some(ResolveFailure::ReferenceToNonPath),
        },
        Type::Group(elem) => type_path_failure(*elem),
        Type::Other => Some(ResolveFailure::UnsupportedType),
    }
}

/// The span of the first argument from position `i` on that is no lifetime,
/// when that argument is neither a type nor a lifetime; `fallback` otherwise.
pub open spec fn blocking_argument_span(args: Seq<GenericArgument>, i: int, fallback: Span) -> Span
    decreases args.len() - i,
{
    if 0 <= i < args.len() {
        match args[i] {
            GenericArgument::Lifetime => blocking_argument_span(args, i + 1, fallback),
            GenericArgument::Other(span) => span,
            GenericArgument::Type(_) => fallback,
        }
    } else {
        fallback
    }
}

/// Why a segment does not resolve, looking first at its own arguments and
/// then into its first type argument.
pub open spec fn segment_failure(segment: PathSegment) -> Option<ResolveFailure>
    decreases segment,
{
    if segment.arguments.spec_is_empty() {
        None
    } else {
        match segment.arguments {
            PathArguments::AngleBracketed(args) => if all_lifetimes(args@) {
                None
            } else {
                match first_type_argument(args@, 0) {
                    Some(ty) => match type_path_failure(ty) {
                        Some(failure) => Some(failure),
                        None => match last_segment(type_path_of(ty)->0) {
                            Some(child) => {
                                proof {
                                    lemma_type_path_failure(ty);
                                    lemma_child_segment_within(segment);
                                }
                                segment_failure(child)
                            },
                            None => Some(ResolveFailure::MissingLastSegment),
                        },
                    },
                    None => Some(
                        ResolveFailure::UnexpectedGenericArgument(
                            blocking_argument_span(args@, 0, segment.ident_span),
                        ),
                    ),
                }
            },
            _ => Some(ResolveFailure::UnexpectedPathArguments(segment.ident_span)),
        }
    }
}

/// Why a type does not resolve into component parts; none when it does.
pub open spec fn type_failure(ty: Type) -> Option<ResolveFailure> {
    match type_path_failure(ty) {
        Some(failure) => Some(failure),
        None => match last_segment(type_path_of(ty)->0) {
            Some(segment) => segment_failure(segment),
            None => Some(ResolveFailure::MissingLastSegment),
        },
    }
}

/// A type names a path exactly when no failure is found on the way to it.
pub proof fn lemma_type_path_failure(ty: Type)
    ensures
        type_path_failure(ty) is None <==> type_path_of(ty) is Some,
    decreases ty,
{
    if let Type::Group(elem) = ty {
        lemma_type_path_failure(*elem);
    }
}

/// A segment resolves exactly when no failure is found in it.
pub proof fn lemma_segment_failure(segment: PathSegment)
    ensures
        segment_failure(segment) is None <==> segment_resolves(segment),
    decreases segment,
{
    if let Some(ty) = argument_type(segment) {
        lemma_child_segment_within(segment);
        lemma_type_path_failure(ty);
        if let Some(child) = child_segment(segment) {
            lemma_segment_failure(child);
        }
    }
}

/// Why a type does not resolve into component parts; none when it does, and
/// `ComponentPart::from_type` may be called on it.
pub fn resolve_failure(ty: &Type) -> (failure: Option<ResolveFailure>)
    ensures
        failure == type_failure(*ty),
        failure is None <==> resolves(*ty),
    decreases *ty,
{
    proof {
        lemma_type_path_failure(*ty);
        lemma_type_path_within(*ty);
        if let Some(path) = type_path_of(*ty) {
            lemma_last_segment_within(path);
            if let Some(segment) = last_segment(path) {
                lemma_segment_failure(segment);
            }
        }
    }
    match type_path_failure_of(ty) {
        Some(failure) => Some(failure),
        None => {
            let path = ComponentPart::get_type_path(ty);
            match ComponentPart::end_segment(path) {
                Some(segment) => segment_failure_of(segment),
                None => Some(ResolveFailure::MissingLastSegment),
            }
        },
    }
}

fn type_path_failure_of(ty: &Type) -> (failure: Option<ResolveFailure>)
    ensures
        failure == type_path_failure(*ty),
    decreases *ty,
{
    match ty {
        Type::Path(_) => None,
        Type::Reference(elem) => match &**elem {
            Type::Path(_) => None,
            _ => Some(ResolveFailure::ReferenceToNonPath),
        },
        Type::Group(elem) => type_path_failure_of(&**elem),
        Type::Other => Some(ResolveFailure::UnsupportedType),
    }
}

fn segment_failure_of(segment: &PathSegment) -> (failure: Option<ResolveFailure>)
    ensures
        failure == segment_failure(*segment),
    decreases *segment,
{
    proof {
        lemma_argument_type_within(*segment);
    }
    if segment.arguments.is_empty() {
        None
    } else {
        match &segment.arguments {
            PathArguments::AngleBracketed(args) => {
                if ComponentPart::all_lifetimes(args) {
                    None
                } else {
                    match first_type_argument_of(args, 0) {
                        Some(ty) => resolve_failure(ty),
                        None => Some(
                            ResolveFailure::UnexpectedGenericArgument(
                                blocking_argument_span_of(args, 0, segment.ident_span),
                            ),
                        ),
                    }
                }
            },
            _ => Some(ResolveFailure::UnexpectedPathArguments(segment.ident_span)),
        }
    }
}

fn blocking_argument_span_of(args: &Vec<GenericArgument>, index: usize, fallback: Span) -> (span:
    Span)
    ensures
        span == blocking_argument_span(args@, index as int, fallback),
    decreases args@.len() - index,
{
    if index < args.len() {
        match &args[index] {
            GenericArgument::Lifetime => blocking_argument_span_of(args, index + 1, fallback),
            GenericArgument::Other(span) => *span,
            GenericArgument::Type(_) => fallback,
        }
    } else {
        fallback
    }
}

fn first_type_argument_of(args: &Vec<GenericArgument>, index: usize) -> (ty: Option<&Type>)
    ensures
        ty is Some <==> first_type_argument(args@, index as int) is Some,
        ty matches Some(t) ==> first_type_argument(args@, index as int) == Some(*t),
    decreases args@.len() - index,
{
    if index < args.len() {
        match &args[index] {
            GenericArgument::Type(ty) => Some(ty),
            GenericArgument::Lifetime => first_type_argument_of(args, index + 1),
            GenericArgument::Other(_) => None,
        }
    } else {
        None
    }
}

/// Whether the chain `part` follows the segments it comes from: each part
/// carries its segment's identifier, the generic wrapper and value type that
/// the identifier names, and a child exactly when its segment has an
/// angle-bracketed argument that is no lifetime; that child follows the
/// segment of the first such argument.
pub open spec fn follows_segment(part: ComponentPartView, segment: PathSegment) -> bool
    decreases segment,
{
    &&& part.ident == segment.ident@
    &&& part.generic_type == generic_of_name(segment.ident@)
    &&& part.value_type == converted(segment.ident@).value_type
    &&& (part.child is Some <==> (segment.arguments matches PathArguments::AngleBracketed(args)
        && !all_lifetimes(args@)))
    &&& match part.child {
        Some(child) => match child_segment(segment) {
            Some(child_segment) => {
                proof {
                    lemma_child_segment_within(segment);
                }
                follows_segment(*child, child_segment)
            },
            None => false,
        },
        None => true,
    }
}

/// Every part of the chain that a segment resolves into follows its segment.
pub proof fn law_chain_follows_segments(segment: PathSegment)
    requires
        segment_resolves(segment),
    ensures
        follows_segment(segment_component(segment), segment),
    decreases segment,
{
    if let Some(child) = child_segment(segment) {
        lemma_child_segment_within(segment);
        if !segment.arguments.spec_is_empty() {
            law_chain_follows_segments(child);
        }
    }
}

/// Every part of the chain that `from_type` builds follows its segment, from
/// the last segment of the type's path down.
pub proof fn law_type_chain_follows_segments(ty: Type)
    requires
        resolves(ty),
    ensures
        follows_segment(component_of(ty), type_segment(ty)->0),
{
    law_chain_follows_segments(type_segment(ty)->0);
}

/// Only the last segment of a path decides its parts: paths that end in the
/// same segment, such as `std::collections::HashMap<K, V>` and
/// `HashMap<K, V>`, resolve alike and give equal parts.
pub proof fn law_only_the_last_segment_counts(a: Path, b: Path)
    requires
        last_segment(a) is Some,
        last_segment(a) == last_segment(b),
    ensures
        resolves(Type::Path(a)) == resolves(Type::Path(b)),
        component_of(Type::Path(a)) == component_of(Type::Path(b)),
{
}

/// A type resolves as the path it names: references and any number of
/// invisible groups around it are looked through.
pub proof fn law_type_resolves_as_its_path(ty: Type)
    requires
        type_path_of(ty) is Some,
    ensures
        resolves(ty) == resolves(Type::Path(type_path_of(ty)->0)),
        component_of(ty) == component_of(Type::Path(type_path_of(ty)->0)),
{
}

/// The part of a generic segment is the part of its identifier alone when all
/// its arguments are lifetimes, and otherwise that part with the parts of its
/// first type argument as the child.
pub proof fn law_generic_segment(segment: PathSegment)
    requires
        segment.arguments is AngleBracketed,
        !segment.arguments.spec_is_empty(),
        segment_resolves(segment),
    ensures
        all_lifetimes(segment.arguments->AngleBracketed_0@) ==> segment_component(segment)
            == converted(segment.ident@),
        !all_lifetimes(segment.arguments->AngleBracketed_0@) ==> segment_component(segment) == (
        ComponentPartView {
            child: Some(
                Box::new(
                    component_of(first_type_argument(segment.arguments->AngleBracketed_0@, 0)->0),
                ),
            ),
            ..converted(segment.ident@)
        }),
{
}

/// The map types are exactly `HashMap`, `BTreeMap` and `Map`: a segment
/// resolves into a `Dictionary` part exactly when its identifier is one of them.
pub proof fn law_map_names_are_dictionaries(segment: PathSegment)
    ensures
        segment_component(segment).generic_type == Some(GenericType::Dictionary) <==> (
        segment.ident@ =~= seq!['H', 'a', 's', 'h', 'M', 'a', 'p'] || segment.ident@ =~= seq![
            'B',
            'T',
            'r',
            'e',
            'e',
            'M',
            'a',
            'p',
        ] || segment.ident@ =~= seq!['M', 'a', 'p']),
{
    reveal_strlit("HashMap");
    reveal_strlit("Map");
    reveal_strlit("BTreeMap");
    reveal_strlit("Vec");
    reveal_strlit("Option");
    reveal_strlit("Cow");
    reveal_strlit("Box");
    reveal_strlit("RefCell");
    assert("HashMap"@ =~= seq!['H', 'a', 's', 'h', 'M', 'a', 'p']);
    assert("BTreeMap"@ =~= seq!['B', 'T', 'r', 'e', 'e', 'M', 'a', 'p']);
    assert("Map"@ =~= seq!['M', 'a', 'p']);
}

/// The search by name goes through every wrapper but a map: below a `Vec`,
/// `Option`, `Cow`, `Box` or `RefCell` part it finds what the search in the
/// child finds, one step further down; a map part stops it; a part that is no
/// wrapper is found exactly when it carries the name.
pub proof fn law_search_goes_through_wrappers(part: ComponentPartView, ident: Seq<char>)
    ensures
        (part.generic_type == Some(GenericType::Vec) || part.generic_type == Some(
            GenericType::Option,
        ) || part.generic_type == Some(GenericType::Cow) || part.generic_type == Some(
            GenericType::Box,
        ) || part.generic_type == Some(GenericType::RefCell)) && part.child is Some ==> (
        depth_of_ident(part, ident) matches Some(d) ==> depth_of_ident(*part.child->0, ident)
            == Some((d - 1) as nat) && d >= 1) && (depth_of_ident(*part.child->0, ident) matches Some(
            d,
        ) ==> depth_of_ident(part, ident) == Some(d + 1)),
        part.generic_type == Some(GenericType::Dictionary) ==> depth_of_ident(part, ident)
            is None,
        part.generic_type is None ==> (depth_of_ident(part, ident) == Some(0nat) <==> part.ident
            == ident) && (depth_of_ident(part, ident) is Some ==> depth_of_ident(part, ident)
            == Some(0nat)),
{
}

} // verus!
