//! Declarations of the outside types that the library carries, and what
//! their clones give.
use vstd::prelude::*;

verus! {

/// A Bevy entity id; the library carries it and never looks inside.
#[verifier::external_type_specification]
#[verifier::external_body]
pub struct ExEntity(bevy::ecs::entity::Entity);

/// A two-component float vector.
#[verifier::external_type_specification]
#[verifier::external_body]
pub struct ExVec2(bevy::math::Vec2);

/// A two-component integer vector.
#[verifier::external_type_specification]
#[verifier::external_body]
pub struct ExIVec2(bevy::math::IVec2);

/// A Bevy colour.
#[verifier::external_type_specification]
#[verifier::external_body]
pub struct ExColor(bevy::color::Color);

/// `IVec2::clone` (a derived clone of a `Copy` type) gives back the same value.
pub assume_specification[ <bevy::math::IVec2 as std::clone::Clone>::clone ](v: &bevy::math::IVec2) -> (r: bevy::math::IVec2)
    ensures
        r == *v,
;

/// `Vec2::clone` (a derived clone of a `Copy` type) gives back the same value.
pub assume_specification[ <bevy::math::Vec2 as std::clone::Clone>::clone ](v: &bevy::math::Vec2) -> (r: bevy::math::Vec2)
    ensures
        r == *v,
;

/// `Color::clone` (a derived clone of a `Copy` type) gives back the same value.
pub assume_specification[ <bevy::color::Color as std::clone::Clone>::clone ](c: &bevy::color::Color) -> (r: bevy::color::Color)
    ensures
        r == *c,
;

} // verus!
