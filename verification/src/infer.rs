//! Type inference over property value domains: each property is classified
//! from its first permitted value as a boolean, a 32-bit integer, one of
//! seven fixed well-known closed enumerations, or a custom enumeration
//! scoped to its (block, property) pair.

use vstd::prelude::*;
use crate::codec::parse_bool;
use crate::codec::parse_bool_spec;
use crate::codec::parse_i32;
use crate::codec::parse_i32_spec;
use crate::names::camel_of;
use crate::names::str_eq;

verus! {

/// The inferred type of a property's value domain.
#[derive(Clone, Copy, Debug, PartialEq, Eq, Structural, Hash)]
pub enum PropValueType {
    Facing,
    Axis,
    Half,
    Face,
    Shape,
    Hinge,
    Part,
    Enum,
    I32,
    Bool,
}

/// Membership in the directional facing domain.
pub open spec fn is_facing_label(s: Seq<char>) -> bool {
    s == "north"@ || s == "south"@ || s == "east"@ || s == "west"@ || s == "up"@ || s == "down"@
}

/// Membership in the spatial axis domain.
pub open spec fn is_axis_label(s: Seq<char>) -> bool {
    s == "x"@ || s == "y"@ || s == "z"@
}

/// Membership in the vertical half domain.
pub open spec fn is_half_label(s: Seq<char>) -> bool {
    s == "upper"@ || s == "lower"@ || s == "top"@ || s == "bottom"@
}

/// Membership in the surface face domain.
pub open spec fn is_face_label(s: Seq<char>) -> bool {
    s == "floor"@ || s == "wall"@ || s == "ceiling"@
}

/// Membership in the stair and rail shape domain.
pub open spec fn is_shape_label(s: Seq<char>) -> bool {
    s == "straight"@ || s == "inner_left"@ || s == "inner_right"@ || s == "outer_left"@ || s
        == "ascending_north"@ || s == "ascending_south"@ || s == "ascending_east"@ || s
        == "ascending_west"@ || s == "north_east"@ || s == "north_west"@ || s == "south_east"@ || s
        == "south_west"@ || s == "north_south"@ || s == "east_west"@
}

/// Membership in the hinge side domain.
pub open spec fn is_hinge_label(s: Seq<char>) -> bool {
    s == "left"@ || s == "right"@
}

/// Membership in the bed part domain.
pub open spec fn is_part_label(s: Seq<char>) -> bool {
    s == "head"@ || s == "foot"@
}

/// Classification of a property's value domain from its first value, in
/// fixed priority order: the seven well-known domains first, then integer
/// parseability, then boolean parseability, and a custom enumeration last.
pub open spec fn spec_guess(first: Seq<char>) -> PropValueType {
    if is_facing_label(first) {
        PropValueType::Facing
    } else if is_axis_label(first) {
        PropValueType::Axis
    } else if is_half_label(first) {
        PropValueType::Half
    } else if is_face_label(first) {
        PropValueType::Face
    } else if is_shape_label(first) {
        PropValueType::Shape
    } else if is_hinge_label(first) {
        PropValueType::Hinge
    } else if is_part_label(first) {
        PropValueType::Part
    } else if parse_i32_spec(first) is Some {
        PropValueType::I32
    } else if parse_bool_spec(first) is Some {
        PropValueType::Bool
    } else {
        PropValueType::Enum
    }
}

/// The identifier naming the inferred type: a primitive name for booleans
/// and integers, the shared name of a well-known enumeration, and the
/// composite (block, property) name for a custom enumeration.
pub open spec fn type_name_of(ty: PropValueType, variant: Seq<char>, prop: Seq<char>) -> Seq<char> {
    match ty {
        PropValueType::Bool => "bool"@,
        PropValueType::I32 => "i32"@,
        PropValueType::Part => "Part"@,
        PropValueType::Hinge => "Hinge"@,
        PropValueType::Shape => "Shape"@,
        PropValueType::Half => "Half"@,
        PropValueType::Axis => "Axis"@,
        PropValueType::Face => "Face"@,
        PropValueType::Facing => "Facing"@,
        PropValueType::Enum => variant + camel_of(prop),
    }
}

fn in_facing(v: &str) -> (r: bool)
    ensures
        r == is_facing_label(v@),
{
    str_eq(v, "north") || str_eq(v, "south") || str_eq(v, "east") || str_eq(v, "west") || str_eq(
        v,
        "up",
    ) || str_eq(v, "down")
}

fn in_axis(v: &str) -> (r: bool)
    ensures
        r == is_axis_label(v@),
{
    str_eq(v, "x") || str_eq(v, "y") || str_eq(v, "z")
}

fn in_half(v: &str) -> (r: bool)
    ensures
        r == is_half_label(v@),
{
    str_eq(v, "upper") || str_eq(v, "lower") || str_eq(v, "top") || str_eq(v, "bottom")
}

fn in_face(v: &str) -> (r: bool)
    ensures
        r == is_face_label(v@),
{
    str_eq(v, "floor") || str_eq(v, "wall") || str_eq(v, "ceiling")
}

fn in_shape(v: &str) -> (r: bool)
    ensures
        r == is_shape_label(v@),
{
    str_eq(v, "straight") || str_eq(v, "inner_left") || str_eq(v, "inner_right") || str_eq(
        v,
        "outer_left",
    ) || str_eq(v, "ascending_north") || str_eq(v, "ascending_south") || str_eq(
        v,
        "ascending_east",
    ) || str_eq(v, "ascending_west") || str_eq(v, "north_east") || str_eq(v, "north_west")
        || str_eq(v, "south_east") || str_eq(v, "south_west") || str_eq(v, "north_south") || str_eq(
        v,
        "east_west",
    )
}

fn in_hinge(v: &str) -> (r: bool)
    ensures
        r == is_hinge_label(v@),
{
    str_eq(v, "left") || str_eq(v, "right")
}

fn in_part(v: &str) -> (r: bool)
    ensures
        r == is_part_label(v@),
{
    str_eq(v, "head") || str_eq(v, "foot")
}

impl PropValueType {
    /// Classifies a property's value domain from one of its values, in the
    /// fixed priority order of `spec_guess`.
    pub fn guess_from_value(value: &str) -> (r: Self)
        ensures
            r == spec_guess(value@),
    {
        if in_facing(value) {
            PropValueType::Facing
        } else if in_axis(value) {
            PropValueType::Axis
        } else if in_half(value) {
            PropValueType::Half
        } else if in_face(value) {
            PropValueType::Face
        } else if in_shape(value) {
            PropValueType::Shape
        } else if in_hinge(value) {
            PropValueType::Hinge
        } else if in_part(value) {
            PropValueType::Part
        } else if parse_i32(value).is_some() {
            PropValueType::I32
        } else if parse_bool(value).is_some() {
            PropValueType::Bool
        } else {
            PropValueType::Enum
        }
    }
}

/// Well-known domain reuse: a property whose values are exactly `x`, `y`,
/// `z` is classified as the shared spatial axis enumeration in every block
/// that declares it, under the one shared type name, never as a custom
/// enumeration of either block.
pub proof fn lemma_well_known_domain_reuse(
    values1: Seq<Seq<char>>,
    values2: Seq<Seq<char>>,
    variant1: Seq<char>,
    prop1: Seq<char>,
    variant2: Seq<char>,
    prop2: Seq<char>,
)
    requires
        values1 =~= seq!["x"@, "y"@, "z"@],
        values2 =~= seq!["x"@, "y"@, "z"@],
    ensures
        spec_guess(values1[0]) == PropValueType::Axis,
        spec_guess(values1[0]) == spec_guess(values2[0]),
        type_name_of(spec_guess(values1[0]), variant1, prop1) == "Axis"@,
        type_name_of(spec_guess(values2[0]), variant2, prop2) == "Axis"@,
{
    reveal_strlit("x");
    reveal_strlit("north");
    reveal_strlit("south");
    reveal_strlit("east");
    reveal_strlit("west");
    reveal_strlit("up");
    reveal_strlit("down");
    assert(values1[0] == "x"@);
    assert(is_axis_label("x"@));
    assert(!is_facing_label("x"@)) by {
        assert("x"@.len() == 1);
        assert("north"@.len() == 5);
        assert("south"@.len() == 5);
        assert("east"@.len() == 4);
        assert("west"@.len() == 4);
        assert("up"@.len() == 2);
        assert("down"@.len() == 4);
    }
}

} // verus!
