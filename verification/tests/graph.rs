use soto::animation::Animation;
use soto::simple::object::ObjectType;
use soto::simple::properties::Property;
use soto::simple::{AnimationCurve, SimpleFbx};
use soto::value::PropValue;

fn object_index_by_class_name(fbx: &SimpleFbx, name: &str) -> Option<usize> {
    for (i, o) in fbx.objects.iter().enumerate() {
        if o.class.class_name() == name {
            return Some(i);
        }
    }
    None
}

fn prop_first_i32(fbx: &SimpleFbx, oi: usize, name: &str) -> i32 {
    let o = &fbx.objects[oi];
    for p in &o.properties {
        if p.name == name {
            return p.values[0].get_i32().unwrap();
        }
    }
    panic!("property not found");
}

fn init_fbx_with_node() -> SimpleFbx {
    let mut fbx = SimpleFbx::new();

    let foobar_id = fbx.new_object(ObjectType::NotSupported("FooBar".into()));
    {
        let i = object_index_by_class_name(&fbx, "FooBar").unwrap();
        fbx.objects[i].properties.push(Property {
            name: "Blah".into(),
            values: vec![PropValue::I32(0)],
        });
    }
    fbx.connect_parent_child(0, foobar_id);

    let stack_id = fbx.new_object(ObjectType::AnimationStack);

    let layer_id = fbx.new_object(ObjectType::AnimationLayer);
    fbx.connect_parent_child(stack_id, layer_id);

    let node_id = fbx.new_object(ObjectType::AnimationCurveNode);
    {
        let i = object_index_by_class_name(&fbx, "AnimationCurveNode").unwrap();
        fbx.objects[i].properties.push(Property {
            name: "d|Blah".into(),
            values: vec![PropValue::I32(0)],
        });
    }
    fbx.connect_parent_child(layer_id, node_id);
    fbx.connect_property_object(foobar_id, "Blah", node_id);

    let curve_id = fbx.new_object(ObjectType::AnimationCurve(AnimationCurve {
        frames: 2,
        values: vec![PropValue::I32(1), PropValue::I32(2)],
    }));
    fbx.connect_property_object(node_id, "d|Blah", curve_id);

    fbx
}

#[test]
fn it_doesnt_create_an_animation_for_animationless_fbx() {
    let anim = Animation::from_simple(&SimpleFbx::new());
    assert!(anim.is_none());
}

#[test]
fn it_gives_zero_frames_for_empty_stack() {
    let mut fbx = SimpleFbx::new();
    fbx.new_object(ObjectType::AnimationStack);

    let anim = Animation::from_simple(&fbx).unwrap();

    assert!(anim.frame_count(&fbx) == 0);
}

#[test]
fn it_gives_frames_for_stack_layer_node_and_curve() {
    let fbx = init_fbx_with_node();

    let anim = Animation::from_simple(&fbx).unwrap();

    assert!(anim.frame_count(&fbx) == 2);
}

#[test]
fn it_transforms_property() {
    let mut fbx = init_fbx_with_node();
    let anim = Animation::from_simple(&fbx).unwrap();

    anim.transform_fbx_to_frame(&mut fbx, 1);

    let i = object_index_by_class_name(&fbx, "FooBar").unwrap();
    assert!(prop_first_i32(&fbx, i, "Blah") == 2);
}

#[test]
fn it_connects_parents_to_children() {
    let mut fbx = SimpleFbx::new();
    let parent = fbx.new_object(ObjectType::Model(soto::simple::Model {}));
    let child = fbx.new_object(ObjectType::Geometry(soto::simple::Geometry {
        vertices: Vec::new(),
        polygons: Vec::new(),
        normals: Vec::new(),
        uvs: Vec::new(),
    }));

    fbx.connect_parent_child(parent, child);

    let children = fbx.children_of(parent);
    assert!(children.len() == 1);
    assert!(children[0] == child);
}

#[test]
fn it_connects_properties_to_objects() {
    let mut fbx = SimpleFbx::new();
    let driven = fbx.new_object(ObjectType::Model(soto::simple::Model {}));
    let driver = fbx.new_object(ObjectType::Geometry(soto::simple::Geometry {
        vertices: Vec::new(),
        polygons: Vec::new(),
        normals: Vec::new(),
        uvs: Vec::new(),
    }));

    fbx.connect_property_object(driven, "d|Blah", driver);

    let props = fbx.driven_properties_of(driven);
    assert!(props.len() == 1);
    assert!(props[0].name == "d|Blah");
    assert!(props[0].driver == driver);
}

#[test]
fn repeated_connections_accumulate() {
    let mut fbx = SimpleFbx::new();
    let parent = fbx.new_object(ObjectType::Model(soto::simple::Model {}));
    let child = fbx.new_object(ObjectType::Model(soto::simple::Model {}));

    fbx.connect_parent_child(parent, child);
    let once = fbx.children_of(parent);
    assert_eq!(once.len(), 1);
    assert_eq!(once[0], child);

    fbx.connect_parent_child(parent, child);
    let twice = fbx.children_of(parent);
    assert_eq!(twice.len(), 2);
    assert_eq!(twice[0], child);
    assert_eq!(twice[1], child);
}

#[test]
fn evaluate_is_idempotent_on_a_curve_chain() {
    let mut once = init_fbx_with_node();
    let anim1 = Animation::from_simple(&once).unwrap();
    anim1.transform_fbx_to_frame(&mut once, 1);

    let mut twice = init_fbx_with_node();
    let anim2 = Animation::from_simple(&twice).unwrap();
    anim2.transform_fbx_to_frame(&mut twice, 1);
    anim2.transform_fbx_to_frame(&mut twice, 1);

    let fo = object_index_by_class_name(&once, "FooBar").unwrap();
    let ft = object_index_by_class_name(&twice, "FooBar").unwrap();
    assert_eq!(prop_first_i32(&once, fo, "Blah"), prop_first_i32(&twice, ft, "Blah"));

    let no = object_index_by_class_name(&once, "AnimationCurveNode").unwrap();
    let nt = object_index_by_class_name(&twice, "AnimationCurveNode").unwrap();
    assert_eq!(prop_first_i32(&once, no, "d|Blah"), prop_first_i32(&twice, nt, "d|Blah"));
    assert_eq!(prop_first_i32(&once, no, "d|Blah"), 2);
}
