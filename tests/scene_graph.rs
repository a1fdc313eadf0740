use scad_scene::emit::emit;
use scad_scene::error::ConstructionError;
use scad_scene::node::{
    make_bare_transform, make_group, make_primitive, make_transform, CircleKind, Element,
    GroupKind, Node, PrimitiveKind, Size, TransformKind,
};
use scad_scene::number::{Real, Vec3};
use scad_scene::scene::Scene;

fn bits(values: &[f32]) -> Vec<u32> {
    values.iter().map(|v| v.to_bits()).collect()
}

fn cube(x: f32, y: f32, z: f32) -> Node {
    make_primitive(PrimitiveKind::Cube, &bits(&[x, y, z])).unwrap()
}

fn translate(x: f32, y: f32, z: f32, child: Node) -> Node {
    make_transform(TransformKind::Translate, &bits(&[x, y, z]), child).unwrap()
}

#[test]
fn translated_box_gives_one_nested_pair() {
    let tree = translate(2.0, 2.0, 3.0, cube(2.0, 1.0, 4.0));
    assert_eq!(emit(&tree), "translate([2,2,3])\n{\n\tcube([2,1,4]);\n}");
}

#[test]
fn empty_union_has_empty_block() {
    let union = make_group(GroupKind::Union);
    assert_eq!(emit(&union), "union()\n{\n}");
}

#[test]
fn every_empty_group_kind_is_written() {
    assert_eq!(emit(&make_group(GroupKind::Difference)), "difference()\n{\n}");
    assert_eq!(emit(&make_group(GroupKind::Intersection)), "intersection()\n{\n}");
    assert_eq!(emit(&make_group(GroupKind::Hull)), "hull()\n{\n}");
    assert_eq!(emit(&make_group(GroupKind::Group)), "group()\n{\n}");
}

#[test]
fn nan_radius_is_refused() {
    let r = make_primitive(
        PrimitiveKind::Cylinder(CircleKind::Radius),
        &bits(&[10.0, f32::NAN]),
    );
    assert_eq!(r.err(), Some(ConstructionError::NonFinite));
}

#[test]
fn infinite_height_is_refused() {
    let r = make_primitive(
        PrimitiveKind::Cylinder(CircleKind::Diameter),
        &bits(&[f32::INFINITY, 3.0]),
    );
    assert_eq!(r.err(), Some(ConstructionError::NonFinite));
}

#[test]
fn huge_parameter_is_out_of_range() {
    let r = make_primitive(PrimitiveKind::Sphere(CircleKind::Radius), &bits(&[1.0e30]));
    assert_eq!(r.err(), Some(ConstructionError::OutOfRange));
}

#[test]
fn first_bad_parameter_decides_the_error() {
    let r = make_primitive(PrimitiveKind::Cube, &bits(&[1.0e30, f32::NAN, 1.0]));
    assert_eq!(r.err(), Some(ConstructionError::OutOfRange));
}

#[test]
fn wrong_arity_is_refused() {
    let r = make_primitive(PrimitiveKind::Cube, &bits(&[1.0, 2.0]));
    assert_eq!(r.err(), Some(ConstructionError::WrongArity));
    let r = make_primitive(PrimitiveKind::Cylinder(CircleKind::Radius), &bits(&[1.0]));
    assert_eq!(r.err(), Some(ConstructionError::WrongArity));
    let r = make_bare_transform(TransformKind::Rotate, &bits(&[90.0, 0.0, 1.0]));
    assert_eq!(r.err(), Some(ConstructionError::WrongArity));
}

#[test]
fn arity_is_checked_before_values() {
    let r = make_primitive(PrimitiveKind::Cube, &bits(&[f32::NAN]));
    assert_eq!(r.err(), Some(ConstructionError::WrongArity));
}

#[test]
fn rotation_beyond_a_full_turn_is_refused() {
    let r = make_bare_transform(TransformKind::Rotate, &bits(&[400.0, 0.0, 0.0, 1.0]));
    assert_eq!(r.err(), Some(ConstructionError::AngleOutOfRange));
    let r = make_bare_transform(TransformKind::Rotate, &bits(&[-360.0, 0.0, 0.0, 1.0]));
    assert!(r.is_ok());
    let r = Node::rotate(Real::from_micros(360_000_001), Vec3::from_units(0, 0, 1), cube(1.0, 1.0, 1.0));
    assert_eq!(r.err(), Some(ConstructionError::AngleOutOfRange));
}

#[test]
fn transform_takes_a_single_child() {
    let mut t = make_bare_transform(TransformKind::Translate, &bits(&[1.0, 0.0, 0.0])).unwrap();
    assert_eq!(t.add_child(cube(1.0, 1.0, 1.0)), Ok(()));
    assert_eq!(
        t.add_child(cube(2.0, 2.0, 2.0)),
        Err(ConstructionError::TransformAlreadyHasChild)
    );
    assert_eq!(t.child_count(), 1);
    assert_eq!(emit(&t), "translate([1,0,0])\n{\n\tcube([1,1,1]);\n}");
}

#[test]
fn wrapped_transform_refuses_another_child() {
    let mut t = translate(0.0, 0.0, 1.0, cube(1.0, 1.0, 1.0));
    assert_eq!(
        t.add_child(cube(1.0, 1.0, 1.0)),
        Err(ConstructionError::TransformAlreadyHasChild)
    );
}

#[test]
fn primitive_refuses_a_child() {
    let mut c = cube(1.0, 1.0, 1.0);
    assert_eq!(
        c.add_child(cube(1.0, 1.0, 1.0)),
        Err(ConstructionError::PrimitiveTakesNoChildren)
    );
    assert_eq!(c.child_count(), 0);
    assert_eq!(emit(&c), "cube([1,1,1]);");
}

#[test]
fn bare_transform_is_written_as_a_leaf() {
    let t = make_bare_transform(TransformKind::Mirror, &bits(&[0.0, 1.0, 0.0])).unwrap();
    assert_eq!(emit(&t), "mirror([0,1,0]);");
}

#[test]
fn clone_is_independent_of_its_source() {
    let mut source = make_group(GroupKind::Union);
    source.add_child(cube(1.0, 1.0, 1.0)).unwrap();
    let before = emit(&source);
    let mut copy = source.clone_subtree();
    assert_eq!(emit(&copy), before);
    copy.add_child(cube(5.0, 5.0, 5.0)).unwrap();
    assert_eq!(emit(&source), before);
    assert_eq!(source.child_count(), 1);
    assert_eq!(copy.child_count(), 2);
    assert_ne!(emit(&copy), before);
}

#[test]
fn equal_trees_give_equal_text() {
    let build = || {
        let mut d = make_group(GroupKind::Difference);
        d.add_child(cube(3.0, 3.0, 3.0)).unwrap();
        d.add_child(translate(1.0, 1.0, -1.0, cube(1.0, 1.0, 5.0))).unwrap();
        d
    };
    let a = build();
    let b = build();
    assert_eq!(emit(&a), emit(&b));
    assert_eq!(emit(&a), emit(&a));
}

#[test]
fn difference_keeps_children_in_order() {
    let mut d = make_group(GroupKind::Difference);
    d.add_child(cube(1.0, 1.0, 1.0)).unwrap();
    d.add_child(cube(2.0, 2.0, 2.0)).unwrap();
    d.add_child(cube(3.0, 3.0, 3.0)).unwrap();
    assert_eq!(
        emit(&d),
        "difference()\n{\n\tcube([1,1,1]);\n\tcube([2,2,2]);\n\tcube([3,3,3]);\n}"
    );
}

#[test]
fn repeated_children_are_not_merged() {
    let mut d = make_group(GroupKind::Difference);
    d.add_child(cube(1.0, 1.0, 1.0)).unwrap();
    d.add_child(cube(1.0, 1.0, 1.0)).unwrap();
    assert_eq!(emit(&d), "difference()\n{\n\tcube([1,1,1]);\n\tcube([1,1,1]);\n}");
}

#[test]
fn nesting_indents_each_level() {
    let mut d = make_group(GroupKind::Difference);
    d.add_child(cube(4.0, 4.0, 4.0)).unwrap();
    d.add_child(translate(0.0, 0.0, 1.0, cube(1.0, 1.0, 1.0))).unwrap();
    assert_eq!(
        emit(&d),
        "difference()\n{\n\tcube([4,4,4]);\n\ttranslate([0,0,1])\n\t{\n\t\tcube([1,1,1]);\n\t}\n}"
    );
}

#[test]
fn round_shapes_name_radius_or_diameter() {
    let c = make_primitive(PrimitiveKind::Cylinder(CircleKind::Diameter), &bits(&[10.0, 3.0])).unwrap();
    assert_eq!(emit(&c), "cylinder(h=10,d=3);");
    let c = make_primitive(PrimitiveKind::Cylinder(CircleKind::Radius), &bits(&[8.0, 20.0])).unwrap();
    assert_eq!(emit(&c), "cylinder(h=8,r=20);");
    let s = make_primitive(PrimitiveKind::Sphere(CircleKind::Radius), &bits(&[2.5])).unwrap();
    assert_eq!(emit(&s), "sphere(r=2.5);");
    let s = Node::sphere(Size::Diameter(Real::from_units(4)));
    assert_eq!(emit(&s), "sphere(d=4);");
}

#[test]
fn transforms_write_their_parameters() {
    let r = make_transform(TransformKind::Rotate, &bits(&[-90.0, 1.0, 0.0, 0.0]), cube(1.0, 1.0, 1.0)).unwrap();
    assert_eq!(emit(&r), "rotate(-90,[1,0,0])\n{\n\tcube([1,1,1]);\n}");
    let s = make_transform(TransformKind::Scale, &bits(&[0.9, 0.9, 0.9]), cube(1.0, 1.0, 1.0)).unwrap();
    assert_eq!(emit(&s), "scale([0.9,0.9,0.9])\n{\n\tcube([1,1,1]);\n}");
}

#[test]
fn decimals_round_to_micrometres() {
    assert_eq!(Real::from_f32_bits(3.6f32.to_bits()).unwrap().micros, 3_600_000);
    assert_eq!(Real::from_f32_bits(3.6f32.to_bits()).unwrap().to_code(), "3.6");
    assert_eq!(Real::from_f32_bits((-5.0f32).to_bits()).unwrap().to_code(), "-5");
    assert_eq!(Real::from_f32_bits(0.1f32.to_bits()).unwrap().to_code(), "0.1");
    assert_eq!(Real::from_f32_bits(55.5f32.to_bits()).unwrap().to_code(), "55.5");
    assert_eq!(Real::from_f32_bits(0.000001f32.to_bits()).unwrap().to_code(), "0.000001");
    assert_eq!(Real::from_f32_bits(0.0000001f32.to_bits()).unwrap().micros, 0);
    assert_eq!(Real::from_f32_bits((-0.0f32).to_bits()).unwrap().to_code(), "0");
    assert_eq!(Real::from_f32_bits(1.0e-40f32.to_bits()).unwrap().micros, 0);
    assert_eq!(Real::from_f32_bits(1600.0f32.to_bits()).unwrap().micros, 1_600_000_000);
    assert_eq!(Real::from_f32_bits(8.0e12f32.to_bits()).unwrap().micros, 7_999_999_967_232_000_000);
    assert_eq!(Real::from_f32_bits(1.0e13f32.to_bits()).err(), Some(ConstructionError::OutOfRange));
    assert_eq!(Real::from_f32_bits(f32::NEG_INFINITY.to_bits()).err(), Some(ConstructionError::NonFinite));
}

#[test]
fn fixed_point_text() {
    assert_eq!(Real::from_micros(1_250_000).to_code(), "1.25");
    assert_eq!(Real::from_micros(-1).to_code(), "-0.000001");
    assert_eq!(Real::from_micros(10_000_000).to_code(), "10");
    assert_eq!(Real::from_micros(120_500).to_code(), "0.1205");
    assert_eq!(Real::from_micros(i64::MIN).to_code(), "-9223372036854.775808");
    assert_eq!(Real::from_units(-7).micros, -7_000_000);
}

#[test]
fn typed_builders_match_raw_construction() {
    let typed = Node::translate(Vec3::from_units(2, 2, 3), Node::cube(Vec3::from_units(2, 1, 4)));
    let raw = translate(2.0, 2.0, 3.0, cube(2.0, 1.0, 4.0));
    assert_eq!(emit(&typed), emit(&raw));
    let m = Node::mirror(Vec3::from_units(0, 1, 0), Node::cylinder(Real::from_units(5), Size::Radius(Real::from_micros(500_000))));
    assert_eq!(emit(&m), "mirror([0,1,0])\n{\n\tcylinder(h=5,r=0.5);\n}");
    let s = Node::scale(Vec3::from_units(2, 2, 2), Node::sphere(Size::Radius(Real::from_units(1))));
    assert_eq!(emit(&s), "scale([2,2,2])\n{\n\tsphere(r=1);\n}");
    let r = Node::rotate(Real::from_units(45), Vec3::from_units(0, 1, 0), Node::cube(Vec3::from_units(1, 1, 1))).unwrap();
    assert_eq!(emit(&r), "rotate(45,[0,1,0])\n{\n\tcube([1,1,1]);\n}");
}

#[test]
fn combinators_keep_argument_order() {
    let h = Node::combine(GroupKind::Hull, Node::cube(Vec3::from_units(1, 1, 1)), Node::sphere(Size::Radius(Real::from_units(1))));
    assert_eq!(emit(&h), "hull()\n{\n\tcube([1,1,1]);\n\tsphere(r=1);\n}");
    let u = Node::group_of(
        GroupKind::Intersection,
        vec![Node::sphere(Size::Radius(Real::from_units(3))), Node::cube(Vec3::from_units(2, 2, 2))],
    );
    assert_eq!(u.child_count(), 2);
    assert_eq!(u.element(), Element::Intersection);
    assert_eq!(u.child(1).element(), Element::Cube(Vec3::from_units(2, 2, 2)));
    assert_eq!(emit(&u), "intersection()\n{\n\tsphere(r=3);\n\tcube([2,2,2]);\n}");
}

#[test]
fn scene_lists_objects_after_detail() {
    let mut scene = Scene::new();
    assert_eq!(scene.get_code(), "");
    scene.set_detail(50);
    scene.add_object(cube(1.0, 1.0, 1.0));
    scene.add_object(translate(0.0, 0.0, 2.0, cube(1.0, 1.0, 1.0)));
    assert_eq!(
        scene.get_code(),
        "$fn=50;\ncube([1,1,1]);\ntranslate([0,0,2])\n{\n\tcube([1,1,1]);\n}\n"
    );
}

#[test]
fn scene_without_detail_omits_setting() {
    let mut scene = Scene::new();
    scene.add_object(make_group(GroupKind::Union));
    assert_eq!(scene.get_code(), "union()\n{\n}\n");
}
