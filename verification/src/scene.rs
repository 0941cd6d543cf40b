//! Records in which a scene description names colors and shapes.

use crate::units::color::{rgb, QuantColor};
use crate::units::objects::ObjectType;
use vstd::prelude::*;
use vstd::std_specs::convert::FromSpecImpl;

verus! {

/// The kind of a shape as a scene description names it.
#[derive(Debug, Clone, Copy, PartialEq, Eq, Structural)]
pub enum ObjectTypeDef {
    Sphere,
    Plane,
}

/// A color as a scene description gives it: three channels in the order red,
/// green, blue.
#[derive(Debug, Clone, Copy, PartialEq, Eq, Structural)]
pub struct QuantColorDef {
    pub r: i64,
    pub g: i64,
    pub b: i64,
}

impl From<[i64; 3]> for QuantColorDef {
    fn from(a: [i64; 3]) -> (c: QuantColorDef) {
        QuantColorDef { r: a[0], g: a[1], b: a[2] }
    }
}

impl FromSpecImpl<[i64; 3]> for QuantColorDef {
    open spec fn obeys_from_spec() -> bool {
        true
    }

    open spec fn from_spec(a: [i64; 3]) -> QuantColorDef {
        QuantColorDef { r: a[0], g: a[1], b: a[2] }
    }
}

impl From<QuantColorDef> for QuantColor {
    fn from(def: QuantColorDef) -> (c: QuantColor) {
        QuantColor::new(def.r, def.g, def.b)
    }
}

impl FromSpecImpl<QuantColorDef> for QuantColor {
    open spec fn obeys_from_spec() -> bool {
        true
    }

    open spec fn from_spec(def: QuantColorDef) -> QuantColor {
        rgb(def.r as int, def.g as int, def.b as int)
    }
}

impl From<ObjectTypeDef> for ObjectType {
    fn from(def: ObjectTypeDef) -> (kind: ObjectType) {
        match def {
            ObjectTypeDef::Sphere => ObjectType::Sphere,
            ObjectTypeDef::Plane => ObjectType::Plane,
        }
    }
}

impl FromSpecImpl<ObjectTypeDef> for ObjectType {
    open spec fn obeys_from_spec() -> bool {
        true
    }

    open spec fn from_spec(def: ObjectTypeDef) -> ObjectType {
        match def {
            ObjectTypeDef::Sphere => ObjectType::Sphere,
            ObjectTypeDef::Plane => ObjectType::Plane,
        }
    }
}

} // verus!
