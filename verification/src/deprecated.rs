//! The `#[deprecated]` marker of types and fields.

use crate::syntax::Attribute;
use vstd::prelude::*;

verus! {

/// Whether a type or a field is deprecated.
#[derive(Debug, Clone, Copy, PartialEq, Eq)]
pub enum Deprecated {
    True,
    False,
}

/// Whether the attribute at position `i` is `#[deprecated]`.
pub open spec fn is_deprecated_at(attributes: Seq<Attribute>, i: int) -> bool {
    attributes[i].path.ident_of() == Some("deprecated"@)
}

/// Find `#[deprecated]` attribute from given attributes. Typically derive type attributes
/// or field attributes of struct. Attributes whose path is no single identifier,
/// such as `#[rustfmt::skip]`, are passed over.
pub fn get_deprecated(attributes: &[Attribute]) -> (deprecated: Option<Deprecated>)
    ensures
        deprecated is Some <==> exists|i: int|
            0 <= i < attributes@.len() && is_deprecated_at(attributes@, i),
        deprecated is Some ==> deprecated == Some(Deprecated::True),
{
    for index in 0..attributes.len()
        invariant
            forall|j: int| 0 <= j < index ==> !is_deprecated_at(attributes@, j),
    {
        if attributes[index].path.is_ident("deprecated") {
            assert(is_deprecated_at(attributes@, index as int));
            return Some(Deprecated::True);
        }
    }
    None
}

/// Only the paths of the attributes decide whether a type or field is
/// deprecated: two attribute lists with the same paths, whatever their
/// arguments (such as the `deprecated` in `#[allow(deprecated)]`), are
/// deprecated alike, and an attribute counts exactly when its path is the
/// single identifier `deprecated`.
pub proof fn law_only_paths_decide_deprecation(a: Seq<Attribute>, b: Seq<Attribute>)
    requires
        a.len() == b.len(),
        forall|i: int| 0 <= i < a.len() ==> #[trigger] a[i].path == b[i].path,
    ensures
        (exists|i: int| 0 <= i < a.len() && is_deprecated_at(a, i)) <==> (exists|i: int|
            0 <= i < b.len() && is_deprecated_at(b, i)),
        forall|i: int|
            0 <= i < a.len() ==> (is_deprecated_at(a, i) <==> #[trigger] a[i].path.ident_of()
                == Some(seq!['d', 'e', 'p', 'r', 'e', 'c', 'a', 't', 'e', 'd'])),
{
    reveal_strlit("deprecated");
    assert("deprecated"@ =~= seq!['d', 'e', 'p', 'r', 'e', 'c', 'a', 't', 'e', 'd']);
    if exists|i: int| 0 <= i < a.len() && is_deprecated_at(a, i) {
        let i = choose|i: int| 0 <= i < a.len() && is_deprecated_at(a, i);
        assert(a[i].path == b[i].path);
        assert(is_deprecated_at(b, i));
    }
    if exists|i: int| 0 <= i < b.len() && is_deprecated_at(b, i) {
        let i = choose|i: int| 0 <= i < b.len() && is_deprecated_at(b, i);
        assert(a[i].path == b[i].path);
        assert(is_deprecated_at(a, i));
    }
}

} // verus!
