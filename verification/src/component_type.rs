//! How a Rust type name maps onto an OpenAPI data type.

use vstd::prelude::*;

verus! {

/// Whether `name` is the name of a Rust type that OpenAPI writes as a
/// primitive type (a string, a boolean, an integer or a number).
pub open spec fn is_primitive_name(name: Seq<char>) -> bool {
    ||| name == "String"@
    ||| name == "str"@
    ||| name == "&str"@
    ||| name == "char"@
    ||| name == "&char"@
    ||| name == "bool"@
    ||| name == "usize"@
    ||| name == "u8"@
    ||| name == "u16"@
    ||| name == "u32"@
    ||| name == "u64"@
    ||| name == "u128"@
    ||| name == "isize"@
    ||| name == "i8"@
    ||| name == "i16"@
    ||| name == "i32"@
    ||| name == "i64"@
    ||| name == "i128"@
    ||| name == "f32"@
    ||| name == "f64"@
}

/// A Rust type name, seen as the OpenAPI data type it maps onto.
pub struct ComponentType<'a>(pub &'a String);

impl<'a> ComponentType<'a> {
    /// Whether the type is known to be primitive.
    pub fn is_primitive(&self) -> (primitive: bool)
        ensures
            primitive == is_primitive_name(self.0@),
    {
        let name = self.0.as_str();
        "String".eq(name) || "str".eq(name) || "&str".eq(name) || "char".eq(name) || "&char".eq(
            name,
        ) || "bool".eq(name) || "usize".eq(name) || "u8".eq(name) || "u16".eq(name) || "u32".eq(
            name,
        ) || "u64".eq(name) || "u128".eq(name) || "isize".eq(name) || "i8".eq(name) || "i16".eq(
            name,
        ) || "i32".eq(name) || "i64".eq(name) || "i128".eq(name) || "f32".eq(name) || "f64".eq(
            name,
        )
    }
}

} // verus!
