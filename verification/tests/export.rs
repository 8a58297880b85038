use soto::convert::{create_animation_smd, create_reference_smd};
use soto::error::Error;
use soto::fixed::{V2, V3};
use soto::simple::object::ObjectType;
use soto::simple::properties::Property;
use soto::simple::{Model, SimpleFbx};
use soto::smd::{Smd, SmdAnimationFrameBone, SmdTriangle, SmdVertex};
use soto::task::{handle_task_message, TaskMessage, TaskResult, TaskStep};
use soto::value::PropValue;

const ONE: i64 = 65536;

fn zero3() -> V3 {
    V3 { x: 0, y: 0, z: 0 }
}

fn named_model(fbx: &mut SimpleFbx, name: &str) -> i64 {
    let id = fbx.new_object(ObjectType::Model(Model {}));
    for o in fbx.objects.iter_mut() {
        if o.id == id {
            o.name = name.into();
        }
    }
    id
}

fn translation_property(x: f64, y: f64, z: f64) -> Property {
    Property {
        name: "Lcl Translation".into(),
        values: vec![
            PropValue::F64(x.to_bits()),
            PropValue::F64(y.to_bits()),
            PropValue::F64(z.to_bits()),
        ],
    }
}

fn set_translation(fbx: &mut SimpleFbx, id: i64, x: f64, y: f64, z: f64) {
    for o in fbx.objects.iter_mut() {
        if o.id == id {
            o.properties.push(translation_property(x, y, z));
        }
    }
}

fn frame0_of(smd: &Smd, bone: i32) -> SmdAnimationFrameBone {
    for f in &smd.animation_frames {
        if f.time == 0 {
            for (id, b) in &f.bones {
                if *id == bone {
                    return *b;
                }
            }
        }
    }
    panic!("bone has no frame 0");
}

#[test]
fn origin_model_exports_zero_translation_and_rotation() {
    let mut fbx = SimpleFbx::new();
    let m = named_model(&mut fbx, "Root");
    fbx.connect_parent_child(0, m);

    let (smd, rots, geos) = create_reference_smd(&fbx, &Vec::new()).unwrap();
    assert_eq!(smd.bones.len(), 1);
    assert_eq!(smd.bones[0].name, "Root");
    let fb = frame0_of(&smd, smd.bones[0].id);
    assert_eq!(fb.translation, zero3());
    assert_eq!(fb.rotation, zero3());
    assert_eq!(rots.len(), 1);
    assert_eq!(rots[0].rotation.pre_rotation, zero3());
    assert_eq!(rots[0].rotation.rotation, zero3());
    assert_eq!(rots[0].rotation.post_rotation, zero3());
    assert!(!rots[0].rotation.flip);
    assert_eq!(geos.len(), 0);
}

#[test]
fn child_translation_composes_with_parent() {
    let mut fbx = SimpleFbx::new();
    let parent = named_model(&mut fbx, "Parent");
    let child = named_model(&mut fbx, "Child");
    fbx.connect_parent_child(0, parent);
    fbx.connect_parent_child(parent, child);
    set_translation(&mut fbx, parent, 10.0, 0.0, 0.0);
    set_translation(&mut fbx, child, 0.0, 5.0, 0.0);

    let (smd, _rots, _geos) = create_reference_smd(&fbx, &Vec::new()).unwrap();
    assert_eq!(smd.bones.len(), 2);
    let pb = smd.id_of_bone("Parent").unwrap();
    let cb = smd.id_of_bone("Child").unwrap();
    let pf = frame0_of(&smd, pb);
    let cf = frame0_of(&smd, cb);
    assert_eq!(pf.translation, V3 { x: 10 * ONE, y: 0, z: 0 });
    assert_eq!(cf.translation, V3 { x: 0, y: 5 * ONE, z: 0 });
    // The child's world translation is the composition of the two.
    let world = V3 {
        x: pf.translation.x + cf.translation.x,
        y: pf.translation.y + cf.translation.y,
        z: pf.translation.z + cf.translation.z,
    };
    assert_eq!(world, V3 { x: 10 * ONE, y: 5 * ONE, z: 0 });
}

#[test]
fn duplicate_bone_names_are_refused() {
    let mut fbx = SimpleFbx::new();
    let a = named_model(&mut fbx, "Twin");
    let b = named_model(&mut fbx, "Twin");
    fbx.connect_parent_child(0, a);
    fbx.connect_parent_child(0, b);

    let r = create_reference_smd(&fbx, &Vec::new());
    assert!(matches!(r, Err(Error::DuplicateBoneName(_))));
}

#[test]
fn distinct_bone_names_get_distinct_ids() {
    let mut fbx = SimpleFbx::new();
    let a = named_model(&mut fbx, "Left");
    let b = named_model(&mut fbx, "Right");
    fbx.connect_parent_child(0, a);
    fbx.connect_parent_child(0, b);

    let (smd, _rots, _geos) = create_reference_smd(&fbx, &Vec::new()).unwrap();
    assert_eq!(smd.bones.len(), 2);
    assert_ne!(smd.bones[0].id, smd.bones[1].id);
}

#[test]
fn geometry_without_a_model_is_refused() {
    let mut fbx = SimpleFbx::new();
    let g = fbx.new_object(ObjectType::Geometry(soto::simple::Geometry {
        vertices: Vec::new(),
        polygons: Vec::new(),
        normals: Vec::new(),
        uvs: Vec::new(),
    }));
    fbx.connect_parent_child(0, g);

    let r = create_reference_smd(&fbx, &Vec::new());
    assert!(matches!(r, Err(Error::UnattachedGeometry)));
}

#[test]
fn flip_override_is_matched_by_identifier_name() {
    let mut fbx = SimpleFbx::new();
    let m = named_model(&mut fbx, "Arm\u{0}\u{1}Model");
    fbx.connect_parent_child(0, m);

    let flips = vec![String::from("Arm")];
    let (_smd, rots, _geos) = create_reference_smd(&fbx, &flips).unwrap();
    assert_eq!(rots.len(), 1);
    assert!(rots[0].rotation.flip);
}

#[test]
fn single_bone_and_triangle_export_exactly() {
    let mut smd = Smd::new();
    let bone = smd.new_bone("Root", None).unwrap();
    smd.set_animation(
        0,
        bone.id,
        SmdAnimationFrameBone { translation: zero3(), rotation: zero3() },
    );
    let vert = || SmdVertex {
        parent_bone: bone.id,
        position: zero3(),
        normal: zero3(),
        uv: V2 { u: 0, v: 0 },
        links: Vec::new(),
    };
    smd.push_triangle(SmdTriangle {
        material: "mat".into(),
        v0: vert(),
        v1: vert(),
        v2: vert(),
    });

    let out = smd.export_string();
    let expected = "version 1\n\
        nodes\n\
        0 \"Root\" -1\n\
        end\n\
        skeleton\n\
        time 0\n\
        0   0 0 0   0 0 0\n\
        end\n\
        triangles\n\
        mat\n\
        0   0 0 0   0 0 0   0 0   0  \n\
        0   0 0 0   0 0 0   0 0   0  \n\
        0   0 0 0   0 0 0   0 0   0  \n\
        end\n";
    assert_eq!(out.as_str(), expected);
}

#[test]
fn fractional_values_export_as_exact_decimals() {
    let mut smd = Smd::new();
    let bone = smd.new_bone("Root", None).unwrap();
    smd.set_animation(
        0,
        bone.id,
        SmdAnimationFrameBone {
            translation: V3 { x: 10 * ONE + ONE / 2, y: -(3 * ONE + ONE / 4), z: 0 },
            rotation: zero3(),
        },
    );
    let out = smd.export_string();
    assert!(out.contains("0   10.5 -3.25 0   0 0 0\n"));
}

#[test]
fn animation_bake_reuses_reference_bones() {
    let mut fbx = SimpleFbx::new();
    let m = named_model(&mut fbx, "Root");
    fbx.connect_parent_child(0, m);
    fbx.new_object(ObjectType::AnimationStack);

    let (ref_smd, _r, _g) = create_reference_smd(&fbx, &Vec::new()).unwrap();
    let (anim_smd, rots) = create_animation_smd(&mut fbx, &ref_smd, &Vec::new()).unwrap();
    assert_eq!(anim_smd.bones.len(), 1);
    assert_eq!(anim_smd.bones[0].name, "Root");
    // No curves drive anything: zero frames, so nothing is baked.
    assert_eq!(anim_smd.animation_frames.len(), 0);
    assert_eq!(rots.len(), 0);
}

#[test]
fn names_split_on_the_separator() {
    assert_eq!(
        soto::friendly_name("Model\u{0}\u{1}Root").as_str(),
        "Root::Model"
    );
    assert_eq!(soto::friendly_name("Plain").as_str(), "Plain");
    assert_eq!(
        soto::id_name("Model\u{0}\u{1}Root").unwrap().as_str(),
        "Model"
    );
    assert_eq!(soto::id_name("Plain").unwrap().as_str(), "Plain");
}

#[test]
fn task_messages_decide_the_loop() {
    let relay = handle_task_message(TaskMessage::Log("building".into()));
    assert!(matches!(relay, TaskStep::Relay(t) if t == "building"));

    let done = handle_task_message(TaskMessage::Result(TaskResult { error: None }));
    assert!(matches!(done, TaskStep::Finished(None)));

    let failed = handle_task_message(TaskMessage::Result(TaskResult {
        error: Some("boom".into()),
    }));
    assert!(matches!(failed, TaskStep::Finished(Some(e)) if e == "boom"));
}
