use raytracer::scene::{ObjectTypeDef, QuantColorDef};
use raytracer::units::color::QuantColor;
use raytracer::units::objects::ObjectType;

#[test]
fn color_def_from_three_channels() {
    let def = QuantColorDef::from([204, 255, 153]);
    assert_eq!(def, QuantColorDef { r: 204, g: 255, b: 153 });
    assert_eq!(QuantColor::from(def), QuantColor::new(204, 255, 153));
}

#[test]
fn object_type_def_names_the_same_kind() {
    assert_eq!(ObjectType::from(ObjectTypeDef::Sphere), ObjectType::Sphere);
    assert_eq!(ObjectType::from(ObjectTypeDef::Plane), ObjectType::Plane);
}
