//! The bone/frame assembler: walks the object tree from the virtual root,
//! gives every model a bone with an exactly computed translation, collects
//! the rotation inputs and the triangles of every mesh for the caller's
//! numeric pass, and refuses duplicate bone names and unattached geometry.

use vstd::prelude::*;

use crate::error::Error;
use crate::fixed::{fx_add, fx_clamp, fx_neg, fx_wf, v3_wf, V3};
use crate::simple::geometry::{spec_indices_ok, spec_tri, Tri};
use crate::simple::model::{spec_vec3_prop, v3_zero, ModelProperties};
use crate::simple::object::{ClassView, Object, ObjectType, ObjectView};
use crate::simple::properties::props_view;
use crate::animation::{spec_evaluate, Animation};
use crate::simple::{
    conns_view, objs_view, spec_children_of, spec_object_index, spec_parent_of, ConnectionView,
    GraphView, ObjectId, SimpleFbx,
};
use crate::smd::{
    smd_wf, spec_bone_by_name, spec_fresh_bone_id, spec_set_animation, BoneId, Smd,
    SmdAnimationFrameBone, SmdBoneView, SmdView,
};
use crate::spec_id_name;

verus! {

/// The rotation inputs of one bone: the three Euler angle triples of its
/// model, in degrees (Q47.16), and whether the flip correction was
/// requested for this bone by name. Composing these into the exported
/// radian rotation takes trigonometry, which the caller owns.
#[derive(Debug, Clone, Copy, PartialEq, Eq, Structural)]
pub struct RotationSpec {
    pub pre_rotation: V3,
    pub rotation: V3,
    pub post_rotation: V3,
    pub flip: bool,
}

/// One pending rotation: which bone, at which frame, from which inputs.
#[derive(Debug, Clone, Copy, PartialEq, Eq, Structural)]
pub struct RotationJob {
    pub bone: BoneId,
    pub frame: i32,
    pub rotation: RotationSpec,
}

/// Specification view of a pending mesh.
pub struct GeometryJobView {
    pub bone: i32,
    pub chain: Seq<i64>,
    pub tris: Seq<Tri>,
}

/// One pending mesh: its triangles, the bone they bind to, and the ids of
/// the models from the root down to that bone, whose composed transform the
/// caller applies to the vertices.
#[derive(Debug)]
pub struct GeometryJob {
    pub bone: BoneId,
    pub chain: Vec<ObjectId>,
    pub tris: Vec<Tri>,
}

impl View for GeometryJob {
    type V = GeometryJobView;

    open spec fn view(&self) -> GeometryJobView {
        GeometryJobView { bone: self.bone, chain: self.chain@, tris: self.tris@ }
    }
}

impl DeepView for GeometryJob {
    type V = GeometryJobView;

    open spec fn deep_view(&self) -> GeometryJobView {
        self.view()
    }
}

/// The view of a flip-override list.
pub open spec fn strs_view(l: Seq<String>) -> Seq<Seq<char>> {
    l.map_values(|s: String| s@)
}

/// Whether a name stands in a list.
pub open spec fn spec_in_list(l: Seq<Seq<char>>, x: Seq<char>) -> bool {
    exists|i: int| 0 <= i < l.len() && l[i] == x
}

/// Clamped sum of two coordinates.
pub open spec fn fx_add2(a: int, b: int) -> int {
    fx_clamp(a + b)
}

/// The translation applied after rotation by the parent of an object: the
/// parent model's scaling offset minus its rotation pivot; zero at the root
/// or where no parent model exists.
pub open spec fn spec_parent_after_rot(g: GraphView, id: i64) -> V3 {
    match spec_parent_of(g.connections, id) {
        None => v3_zero(),
        Some(p) => if p == 0 {
            v3_zero()
        } else {
            match spec_object_index(g.objects, p) {
                Some(pi) => {
                    let ps = g.objects[pi].properties;
                    let rp = spec_vec3_prop(ps, "RotationPivot"@, v3_zero());
                    let so = spec_vec3_prop(ps, "ScalingOffset"@, v3_zero());
                    V3 {
                        x: fx_add2(-rp.x, so.x as int) as i64,
                        y: fx_add2(-rp.y, so.y as int) as i64,
                        z: fx_add2(-rp.z, so.z as int) as i64,
                    }
                },
                None => v3_zero(),
            }
        },
    }
}

/// The exported translation of a bone: the parent's after-rotation
/// translation, plus the model's own translation, rotation offset and
/// rotation pivot, summed exactly and clamped pairwise.
pub open spec fn spec_bone_translation(g: GraphView, o: ObjectView) -> V3 {
    let pa = spec_parent_after_rot(g, o.id);
    let t = spec_vec3_prop(o.properties, "Lcl Translation"@, v3_zero());
    let ro = spec_vec3_prop(o.properties, "RotationOffset"@, v3_zero());
    let rp = spec_vec3_prop(o.properties, "RotationPivot"@, v3_zero());
    V3 {
        x: fx_add2(fx_add2(fx_add2(pa.x as int, t.x as int), ro.x as int), rp.x as int) as i64,
        y: fx_add2(fx_add2(fx_add2(pa.y as int, t.y as int), ro.y as int), rp.y as int) as i64,
        z: fx_add2(fx_add2(fx_add2(pa.z as int, t.z as int), ro.z as int), rp.z as int) as i64,
    }
}

/// The rotation inputs of a bone: its model's three Euler angle properties
/// and whether the flip override names it.
pub open spec fn spec_bone_rotation(o: ObjectView, flip_list: Seq<Seq<char>>) -> RotationSpec {
    RotationSpec {
        pre_rotation: spec_vec3_prop(o.properties, "PreRotation"@, v3_zero()),
        rotation: spec_vec3_prop(o.properties, "Lcl Rotation"@, v3_zero()),
        post_rotation: spec_vec3_prop(o.properties, "PostRotation"@, v3_zero()),
        flip: spec_in_list(flip_list, spec_id_name(o.name)),
    }
}

/// Every triple read off a property store is in coordinate range.
pub proof fn lemma_vec3_prop_wf(ps: Seq<crate::simple::properties::PropertyView>, name: Seq<char>, default: V3)
    requires
        v3_wf(default),
    ensures
        v3_wf(spec_vec3_prop(ps, name, default)),
{
    match crate::simple::properties::spec_prop_get(ps, name) {
        Some(p) => {
            match crate::simple::properties::spec_to_vector3(p.values) {
                Some(v) => {
                    crate::simple::properties::lemma_scalar_fx_wf(p.values[0]);
                    crate::simple::properties::lemma_scalar_fx_wf(p.values[1]);
                    crate::simple::properties::lemma_scalar_fx_wf(p.values[2]);
                },
                None => {},
            }
        },
        None => {},
    }
}

/// Tests whether a name stands in the flip-override list, after reducing it
/// to its identifier form.
fn flip_requested(flip_fix_list: &Vec<String>, name: &String) -> (r: bool)
    ensures
        r == spec_in_list(strs_view(flip_fix_list@), spec_id_name(name@)),
{
    let idn = match crate::id_name(name.as_str()) {
        Some(s) => s,
        None => {
            return false;
        },
    };
    let ghost lv = strs_view(flip_fix_list@);
    let mut i: usize = 0;
    while i < flip_fix_list.len()
        invariant
            i <= flip_fix_list@.len(),
            lv == strs_view(flip_fix_list@),
            lv.len() == flip_fix_list@.len(),
            forall|j: int| 0 <= j < lv.len() ==> lv[j] == flip_fix_list@[j]@,
            idn@ == spec_id_name(name@),
            forall|j: int| 0 <= j < i ==> lv[j] != idn@,
        decreases flip_fix_list@.len() - i,
    {
        if crate::node::str_eq(&flip_fix_list[i], idn.as_str()) {
            proof {
                assert(lv[i as int] == idn@);
            }
            return true;
        }
        i = i + 1;
    }
    proof {
        assert(!spec_in_list(lv, idn@));
    }
    false
}

/// Computes the translation applied after rotation by the parent of an
/// object.
pub fn calculate_parent_after_rot_translation(fbx: &SimpleFbx, obj: &Object) -> (r: V3)
    ensures
        r == spec_parent_after_rot(fbx@, obj@.id),
        v3_wf(r),
{
    let zero = V3 { x: 0, y: 0, z: 0 };
    let p = match fbx.parent_of(obj.id) {
        Some(p) => p,
        None => {
            return zero;
        },
    };
    if p == 0 {
        return zero;
    }
    match fbx.get(p) {
        Some(po) => {
            let props = ModelProperties::from_generic(&po.properties);
            proof {
                lemma_vec3_prop_wf(po@.properties, "RotationPivot"@, v3_zero());
                lemma_vec3_prop_wf(po@.properties, "ScalingOffset"@, v3_zero());
            }
            let rp = props.rotation_pivot;
            let so = props.scale_offset;
            V3 {
                x: fx_add(fx_neg(rp.x), so.x),
                y: fx_add(fx_neg(rp.y), so.y),
                z: fx_add(fx_neg(rp.z), so.z),
            }
        },
        None => zero,
    }
}

/// Computes a model's exported translation and its rotation inputs:
/// translation exactly, rotation as the inputs the caller's trigonometry
/// composes.
pub fn calculate_animation_transforms_for(
    fbx: &SimpleFbx,
    obj: &Object,
    flip_fix_list: &Vec<String>,
) -> (r: (V3, RotationSpec))
    ensures
        r.0 == spec_bone_translation(fbx@, obj@),
        r.1 == spec_bone_rotation(obj@, strs_view(flip_fix_list@)),
        v3_wf(r.0),
{
    let pa = calculate_parent_after_rot_translation(fbx, obj);
    let props = ModelProperties::from_generic(&obj.properties);
    proof {
        lemma_vec3_prop_wf(obj@.properties, "Lcl Translation"@, v3_zero());
        lemma_vec3_prop_wf(obj@.properties, "RotationOffset"@, v3_zero());
        lemma_vec3_prop_wf(obj@.properties, "RotationPivot"@, v3_zero());
    }
    let t = props.translation;
    let ro = props.rotation_offset;
    let rp = props.rotation_pivot;
    let translation = V3 {
        x: fx_add(fx_add(fx_add(pa.x, t.x), ro.x), rp.x),
        y: fx_add(fx_add(fx_add(pa.y, t.y), ro.y), rp.y),
        z: fx_add(fx_add(fx_add(pa.z, t.z), ro.z), rp.z),
    };
    let flip = flip_requested(flip_fix_list, &obj.name);
    let rotation = RotationSpec {
        pre_rotation: props.pre_rotation,
        rotation: props.rotation,
        post_rotation: props.post_rotation,
        flip,
    };
    (translation, rotation)
}

/// Everything the assembler accumulates: the export under construction and
/// the two job lists for the caller's numeric pass.
pub struct BuildState {
    pub smd: SmdView,
    pub rots: Seq<RotationJob>,
    pub geos: Seq<GeometryJobView>,
}

/// How the assembler's walk ends.
pub enum BuildOutcome {
    Done(BuildState),
    DupName,
    Unattached,
    BadPolygon,
    BadLayout,
}

/// The standing shape of the export under construction: bone ids are the
/// arena positions, every stored frame value is in range, and no triangles
/// are stored (the caller adds them after its numeric pass).
pub open spec fn binv(s: SmdView) -> bool {
    &&& forall|i: int| 0 <= i < s.bones.len() ==> 0 <= (#[trigger] s.bones[i]).id < s.bones.len()
    &&& forall|i: int|
        0 <= i < s.bones.len() ==> ((#[trigger] s.bones[i]).parent matches Some(p) ==> p >= 0)
    &&& forall|i: int| 0 <= i < s.frames.len() ==> (#[trigger] s.frames[i]).time >= 0
    &&& forall|i: int, j: int|
        0 <= i < s.frames.len() && 0 <= j < (#[trigger] s.frames[i]).bones.len() ==> (
        #[trigger] s.frames[i].bones[j]).0 >= 0
    &&& forall|i: int, j: int|
        0 <= i < s.frames.len() && 0 <= j < (#[trigger] s.frames[i]).bones.len() ==> {
            let fb = (#[trigger] s.frames[i].bones[j]).1;
            v3_wf(fb.translation) && v3_wf(fb.rotation)
        }
    &&& s.triangles.len() == 0
}

/// One object of the walk: geometry binds its triangles to the current
/// bone, a model makes a bone and walks on below it, and everything else
/// walks straight into its children. An id with no object is passed over;
/// a walk deeper than the fuel allows (only possible on a cyclic edge list)
/// is refused.
pub open spec fn spec_process_id(
    g: GraphView,
    flip: Seq<Seq<char>>,
    id: i64,
    bone: Option<i32>,
    chain: Seq<i64>,
    st: BuildState,
    fuel: nat,
) -> BuildOutcome
    decreases fuel, 1int, 0int,
{
    if fuel == 0 {
        BuildOutcome::BadLayout
    } else {
        match spec_object_index(g.objects, id) {
            None => BuildOutcome::Done(st),
            Some(oi) => {
                let o = g.objects[oi];
                match o.class {
                    ClassView::Geometry(geom) => match bone {
                        None => BuildOutcome::Unattached,
                        Some(b) => if !(forall|i: int|
                            0 <= i < geom.polygons.len() ==> (#[trigger] geom.polygons[i]).len()
                                == 3) {
                            BuildOutcome::BadPolygon
                        } else if geom.normals.len() != geom.uvs.len() || geom.normals.len() < 3
                            * geom.polygons.len() || !spec_indices_ok(geom) {
                            BuildOutcome::BadLayout
                        } else {
                            BuildOutcome::Done(
                                BuildState {
                                    smd: st.smd,
                                    rots: st.rots,
                                    geos: st.geos.push(
                                        GeometryJobView {
                                            bone: b,
                                            chain,
                                            tris: Seq::new(
                                                geom.polygons.len(),
                                                |i: int| spec_tri(geom, i),
                                            ),
                                        },
                                    ),
                                },
                            )
                        },
                    },
                    ClassView::Model(_) => {
                        let nm = spec_id_name(o.name);
                        if spec_bone_by_name(st.smd.bones, nm) is Some {
                            BuildOutcome::DupName
                        } else if st.smd.bones.len() >= 2147483646 {
                            BuildOutcome::BadLayout
                        } else {
                            let bid = spec_fresh_bone_id(st.smd.bones) as i32;
                            let tr = spec_bone_translation(g, o);
                            let st2 = BuildState {
                                smd: SmdView {
                                    bones: st.smd.bones.push(
                                        SmdBoneView { id: bid, name: nm, parent: bone },
                                    ),
                                    frames: spec_set_animation(
                                        st.smd.frames,
                                        0,
                                        bid,
                                        SmdAnimationFrameBone {
                                            translation: tr,
                                            rotation: v3_zero(),
                                        },
                                    ),
                                    triangles: st.smd.triangles,
                                },
                                rots: st.rots.push(
                                    RotationJob {
                                        bone: bid,
                                        frame: 0,
                                        rotation: spec_bone_rotation(o, flip),
                                    },
                                ),
                                geos: st.geos,
                            };
                            spec_process_list(
                                g,
                                flip,
                                spec_children_of(g.connections, id),
                                Some(bid),
                                chain.push(id),
                                st2,
                                (fuel - 1) as nat,
                            )
                        }
                    },
                    _ => spec_process_list(
                        g,
                        flip,
                        spec_children_of(g.connections, id),
                        bone,
                        chain,
                        st,
                        (fuel - 1) as nat,
                    ),
                }
            },
        }
    }
}

/// A run of siblings of the walk, in child order.
pub open spec fn spec_process_list(
    g: GraphView,
    flip: Seq<Seq<char>>,
    kids: Seq<i64>,
    bone: Option<i32>,
    chain: Seq<i64>,
    st: BuildState,
    fuel: nat,
) -> BuildOutcome
    decreases fuel, 2int, kids.len(),
{
    if kids.len() == 0 {
        BuildOutcome::Done(st)
    } else {
        match spec_process_id(g, flip, kids[0], bone, chain, st, fuel) {
            BuildOutcome::Done(st2) => spec_process_list(
                g,
                flip,
                kids.drop_first(),
                bone,
                chain,
                st2,
                fuel,
            ),
            e => e,
        }
    }
}

/// One step of the suffix recursion behind `spec_process_list`.
proof fn lemma_process_list_step(
    g: GraphView,
    flip: Seq<Seq<char>>,
    kids: Seq<i64>,
    bone: Option<i32>,
    chain: Seq<i64>,
    st: BuildState,
    fuel: nat,
    i: int,
)
    requires
        0 <= i < kids.len(),
    ensures
        spec_process_list(g, flip, kids.skip(i), bone, chain, st, fuel) == match spec_process_id(
            g,
            flip,
            kids[i],
            bone,
            chain,
            st,
            fuel,
        ) {
            BuildOutcome::Done(st2) => spec_process_list(
                g,
                flip,
                kids.skip(i + 1),
                bone,
                chain,
                st2,
                fuel,
            ),
            e => e,
        },
{
    assert(kids.skip(i).len() > 0);
    assert(kids.skip(i)[0] == kids[i]);
    assert(kids.skip(i).drop_first() =~= kids.skip(i + 1));
}

/// Fresh ids never outrun a bound that every existing id respects.
proof fn lemma_fresh_bone_le(bs: Seq<SmdBoneView>, b: int)
    requires
        forall|i: int| 0 <= i < bs.len() ==> (#[trigger] bs[i]).id <= b,
        b >= -1,
    ensures
        0 <= spec_fresh_bone_id(bs) <= b + 1,
    decreases bs.len(),
{
    if bs.len() > 0 {
        assert(forall|i: int|
            0 <= i < bs.drop_last().len() ==> (#[trigger] bs.drop_last()[i]).id <= b);
        lemma_fresh_bone_le(bs.drop_last(), b);
    }
}

/// Setting one well-formed bone state keeps every stored frame value well
/// formed.
proof fn lemma_set_animation_wf(
    frames: Seq<crate::smd::SmdAnimationFrameView>,
    time: i32,
    id: i32,
    b: SmdAnimationFrameBone,
)
    requires
        time >= 0,
        id >= 0,
        v3_wf(b.translation),
        v3_wf(b.rotation),
        forall|i: int| 0 <= i < frames.len() ==> (#[trigger] frames[i]).time >= 0,
        forall|i: int, j: int|
            0 <= i < frames.len() && 0 <= j < (#[trigger] frames[i]).bones.len() ==> (
            #[trigger] frames[i].bones[j]).0 >= 0,
        forall|i: int, j: int|
            0 <= i < frames.len() && 0 <= j < (#[trigger] frames[i]).bones.len() ==> {
                let fb = (#[trigger] frames[i].bones[j]).1;
                v3_wf(fb.translation) && v3_wf(fb.rotation)
            },
    ensures
        ({
            let r = spec_set_animation(frames, time, id, b);
            &&& forall|i: int| 0 <= i < r.len() ==> (#[trigger] r[i]).time >= 0
            &&& forall|i: int, j: int|
                0 <= i < r.len() && 0 <= j < (#[trigger] r[i]).bones.len() ==> (
                #[trigger] r[i].bones[j]).0 >= 0
            &&& forall|i: int, j: int|
                0 <= i < r.len() && 0 <= j < (#[trigger] r[i]).bones.len() ==> {
                    let fb = (#[trigger] r[i].bones[j]).1;
                    v3_wf(fb.translation) && v3_wf(fb.rotation)
                }
        }),
    decreases frames.len(),
{
    if frames.len() == 0 {
    } else if frames[0].time < time {
        assert(forall|i: int|
            0 <= i < frames.drop_first().len() ==> (#[trigger] frames.drop_first()[i]).time >= 0);
        assert(forall|i: int, j: int|
            0 <= i < frames.drop_first().len() && 0 <= j < (
            #[trigger] frames.drop_first()[i]).bones.len() ==> (
            #[trigger] frames.drop_first()[i].bones[j]).0 >= 0);
        assert(forall|i: int, j: int|
            0 <= i < frames.drop_first().len() && 0 <= j < (
            #[trigger] frames.drop_first()[i]).bones.len() ==> {
                let fb = (#[trigger] frames.drop_first()[i].bones[j]).1;
                v3_wf(fb.translation) && v3_wf(fb.rotation)
            });
        lemma_set_animation_wf(frames.drop_first(), time, id, b);
        let rec = spec_set_animation(frames.drop_first(), time, id, b);
        let r = spec_set_animation(frames, time, id, b);
        assert(r == seq![frames[0]] + rec);
        assert forall|i: int| 0 <= i < r.len() implies (#[trigger] r[i]).time >= 0 by {
            if i > 0 {
                assert(r[i] == rec[i - 1]);
            } else {
                assert(r[0] == frames[0]);
            }
        }
        assert forall|i: int, j: int|
            0 <= i < r.len() && 0 <= j < (#[trigger] r[i]).bones.len() implies (
        #[trigger] r[i].bones[j]).0 >= 0 && v3_wf(r[i].bones[j].1.translation) && v3_wf(
            r[i].bones[j].1.rotation,
        ) by {
            if i > 0 {
                assert(r[i] == rec[i - 1]);
            } else {
                assert(r[0] == frames[0]);
            }
        }
    } else if frames[0].time == time {
        lemma_insert_bone_frame_wf(frames[0].bones, id, b);
        let nf = crate::smd::SmdAnimationFrameView {
            time,
            bones: crate::smd::spec_insert_bone_frame(frames[0].bones, id, b),
        };
        let r = spec_set_animation(frames, time, id, b);
        assert(r == seq![nf] + frames.drop_first());
        assert forall|i: int| 0 <= i < r.len() implies (#[trigger] r[i]).time >= 0 by {
            if i > 0 {
                assert(r[i] == frames.drop_first()[i - 1]);
                assert(frames.drop_first()[i - 1] == frames[i]);
            } else {
                assert(r[0] == nf);
            }
        }
        assert forall|i: int, j: int|
            0 <= i < r.len() && 0 <= j < (#[trigger] r[i]).bones.len() implies (
        #[trigger] r[i].bones[j]).0 >= 0 && v3_wf(r[i].bones[j].1.translation) && v3_wf(
            r[i].bones[j].1.rotation,
        ) by {
            if i > 0 {
                assert(r[i] == frames.drop_first()[i - 1]);
                assert(frames.drop_first()[i - 1] == frames[i]);
            } else {
                assert(r[0] == nf);
            }
        }
    } else {
        let nf = crate::smd::SmdAnimationFrameView { time, bones: seq![(id, b)] };
        let r = spec_set_animation(frames, time, id, b);
        assert(r == seq![nf] + frames);
        assert forall|i: int| 0 <= i < r.len() implies (#[trigger] r[i]).time >= 0 by {
            if i > 0 {
                assert(r[i] == frames[i - 1]);
            } else {
                assert(r[0] == nf);
            }
        }
        assert forall|i: int, j: int|
            0 <= i < r.len() && 0 <= j < (#[trigger] r[i]).bones.len() implies (
        #[trigger] r[i].bones[j]).0 >= 0 && v3_wf(r[i].bones[j].1.translation) && v3_wf(
            r[i].bones[j].1.rotation,
        ) by {
            if i > 0 {
                assert(r[i] == frames[i - 1]);
            } else {
                assert(r[0] == nf);
                assert(r[0].bones[0] == (id, b));
            }
        }
    }
}

/// Splicing one well-formed bone entry keeps a frame's entries well formed.
proof fn lemma_insert_bone_frame_wf(
    bones: Seq<(i32, SmdAnimationFrameBone)>,
    id: i32,
    b: SmdAnimationFrameBone,
)
    requires
        id >= 0,
        v3_wf(b.translation),
        v3_wf(b.rotation),
        forall|j: int| 0 <= j < bones.len() ==> (#[trigger] bones[j]).0 >= 0,
        forall|j: int|
            0 <= j < bones.len() ==> {
                let fb = (#[trigger] bones[j]).1;
                v3_wf(fb.translation) && v3_wf(fb.rotation)
            },
    ensures
        ({
            let r = crate::smd::spec_insert_bone_frame(bones, id, b);
            &&& forall|j: int| 0 <= j < r.len() ==> (#[trigger] r[j]).0 >= 0
            &&& forall|j: int|
                0 <= j < r.len() ==> {
                    let fb = (#[trigger] r[j]).1;
                    v3_wf(fb.translation) && v3_wf(fb.rotation)
                }
        }),
    decreases bones.len(),
{
    if bones.len() > 0 && bones[0].0 < id {
        assert(forall|j: int|
            0 <= j < bones.drop_first().len() ==> (#[trigger] bones.drop_first()[j]).0 >= 0);
        assert(forall|j: int|
            0 <= j < bones.drop_first().len() ==> {
                let fb = (#[trigger] bones.drop_first()[j]).1;
                v3_wf(fb.translation) && v3_wf(fb.rotation)
            });
        lemma_insert_bone_frame_wf(bones.drop_first(), id, b);
        let rec = crate::smd::spec_insert_bone_frame(bones.drop_first(), id, b);
        let r = crate::smd::spec_insert_bone_frame(bones, id, b);
        assert(r == seq![bones[0]] + rec);
        assert forall|j: int|
            0 <= j < r.len() implies (#[trigger] r[j]).0 >= 0 && v3_wf(r[j].1.translation)
            && v3_wf(r[j].1.rotation) by {
            if j > 0 {
                assert(r[j] == rec[j - 1]);
            } else {
                assert(r[0] == bones[0]);
            }
        }
    } else if bones.len() > 0 && bones[0].0 == id {
        let r = crate::smd::spec_insert_bone_frame(bones, id, b);
        assert(r == seq![(id, b)] + bones.drop_first());
        assert forall|j: int|
            0 <= j < r.len() implies (#[trigger] r[j]).0 >= 0 && v3_wf(r[j].1.translation)
            && v3_wf(r[j].1.rotation) by {
            if j > 0 {
                assert(r[j] == bones.drop_first()[j - 1]);
                assert(bones.drop_first()[j - 1] == bones[j]);
            } else {
                assert(r[0] == (id, b));
            }
        }
    } else if bones.len() > 0 {
        let r = crate::smd::spec_insert_bone_frame(bones, id, b);
        assert(r == seq![(id, b)] + bones);
        assert forall|j: int|
            0 <= j < r.len() implies (#[trigger] r[j]).0 >= 0 && v3_wf(r[j].1.translation)
            && v3_wf(r[j].1.rotation) by {
            if j > 0 {
                assert(r[j] == bones[j - 1]);
            } else {
                assert(r[0] == (id, b));
            }
        }
    }
}

/// Creates the bone of one model object and bakes its frame-0 transform,
/// as the model arm of `spec_process_id` says.
fn process_model(
    fbx: &SimpleFbx,
    obj: &Object,
    flip_fix_list: &Vec<String>,
    bone: Option<BoneId>,
    smd: &mut Smd,
    rots: &mut Vec<RotationJob>,
) -> (r: Result<BoneId, Error>)
    requires
        binv(old(smd)@),
        bone matches Some(b) ==> b >= 0,
    ensures
        ({
            let nm = spec_id_name(obj@.name);
            match r {
                Ok(bid) => {
                    &&& spec_bone_by_name(old(smd)@.bones, nm) is None
                    &&& old(smd)@.bones.len() < 2147483646
                    &&& bid == spec_fresh_bone_id(old(smd)@.bones) as i32
                    &&& bid >= 0
                    &&& final(smd)@ == (SmdView {
                        bones: old(smd)@.bones.push(
                            SmdBoneView { id: bid, name: nm, parent: bone },
                        ),
                        frames: spec_set_animation(
                            old(smd)@.frames,
                            0,
                            bid,
                            SmdAnimationFrameBone {
                                translation: spec_bone_translation(fbx@, obj@),
                                rotation: v3_zero(),
                            },
                        ),
                        triangles: old(smd)@.triangles,
                    })
                    &&& final(rots)@ == old(rots)@.push(
                        RotationJob {
                            bone: bid,
                            frame: 0,
                            rotation: spec_bone_rotation(obj@, strs_view(flip_fix_list@)),
                        },
                    )
                    &&& binv(final(smd)@)
                },
                Err(Error::DuplicateBoneName(_)) => spec_bone_by_name(old(smd)@.bones, nm) is Some,
                Err(Error::WrongNodeLayout(_)) => spec_bone_by_name(old(smd)@.bones, nm) is None
                    && old(smd)@.bones.len() >= 2147483646,
                Err(_) => false,
            }
        }),
{
    let name = match crate::id_name(obj.name.as_str()) {
        Some(n) => n,
        None => {
            return Err(Error::WrongNodeLayout(String::from_str("model has no name")));
        },
    };
    if smd.bones.len() >= 2147483646 {
        match smd.id_of_bone(name.as_str()) {
            Some(_) => {
                return Err(Error::DuplicateBoneName(name));
            },
            None => {
                return Err(Error::WrongNodeLayout(String::from_str("too many bones")));
            },
        }
    }
    proof {
        lemma_fresh_bone_le(smd@.bones, smd@.bones.len() - 1);
    }
    let nb = match smd.new_bone(name.as_str(), bone) {
        Some(nb) => nb,
        None => {
            return Err(Error::DuplicateBoneName(name));
        },
    };
    let (translation, rotation) = calculate_animation_transforms_for(fbx, obj, flip_fix_list);
    proof {
        lemma_set_animation_wf(
            smd@.frames,
            0,
            nb@.id,
            SmdAnimationFrameBone { translation, rotation: v3_zero() },
        );
    }
    smd.set_animation(
        0,
        nb.id,
        SmdAnimationFrameBone { translation, rotation: V3 { x: 0, y: 0, z: 0 } },
    );
    rots.push(RotationJob { bone: nb.id, frame: 0, rotation });
    Ok(nb.id)
}

/// Cuts one mesh into triangles and queues it against the current bone, as
/// the geometry arm of `spec_process_id` says.
fn process_geometry(
    geom: &crate::simple::geometry::Geometry,
    b: BoneId,
    chain: &Vec<ObjectId>,
    geos: &mut Vec<GeometryJob>,
) -> (r: Result<(), Error>)
    ensures
        match r {
            Ok(()) => {
                &&& forall|i: int|
                    0 <= i < geom@.polygons.len() ==> (#[trigger] geom@.polygons[i]).len() == 3
                &&& geom@.normals.len() == geom@.uvs.len()
                &&& geom@.normals.len() >= 3 * geom@.polygons.len()
                &&& spec_indices_ok(geom@)
                &&& final(geos).deep_view() == old(geos).deep_view().push(
                    GeometryJobView {
                        bone: b,
                        chain: chain@,
                        tris: Seq::new(geom@.polygons.len(), |i: int| spec_tri(geom@, i)),
                    },
                )
            },
            Err(Error::MalformedPolygon) => !(forall|i: int|
                0 <= i < geom@.polygons.len() ==> (#[trigger] geom@.polygons[i]).len() == 3),
            Err(Error::WrongNodeLayout(_)) => {
                &&& forall|i: int|
                    0 <= i < geom@.polygons.len() ==> (#[trigger] geom@.polygons[i]).len() == 3
                &&& (geom@.normals.len() != geom@.uvs.len() || geom@.normals.len() < 3
                    * geom@.polygons.len() || !spec_indices_ok(geom@))
            },
            Err(_) => false,
        },
{
    let tris = match geom.triangles() {
        Ok(ts) => ts,
        Err(e) => {
            return Err(e);
        },
    };
    let chain2 = chain.clone();
    proof {
        assert(chain2@ =~= chain@);
    }
    let job = GeometryJob { bone: b, chain: chain2, tris };
    let ghost jv = job@;
    geos.push(job);
    proof {
        assert(jv.tris =~= Seq::new(geom@.polygons.len(), |i: int| spec_tri(geom@, i)));
        assert(geos.deep_view() =~= old(geos).deep_view().push(jv));
    }
    Ok(())
}

/// Walks one object of the tree, as `spec_process_id` says.
#[verifier::rlimit(100)]
fn process_fbx_node(
    fbx: &SimpleFbx,
    flip_fix_list: &Vec<String>,
    id: ObjectId,
    bone: Option<BoneId>,
    chain: &Vec<ObjectId>,
    smd: &mut Smd,
    rots: &mut Vec<RotationJob>,
    geos: &mut Vec<GeometryJob>,
    fuel: u64,
) -> (r: Result<(), Error>)
    requires
        binv(old(smd)@),
        bone matches Some(b) ==> b >= 0,
    ensures
        ({
            let outcome = spec_process_id(
                fbx@,
                strs_view(flip_fix_list@),
                id,
                bone,
                chain@,
                BuildState { smd: old(smd)@, rots: old(rots)@, geos: old(geos).deep_view() },
                fuel as nat,
            );
            match r {
                Ok(()) => outcome == BuildOutcome::Done(
                    BuildState { smd: final(smd)@, rots: final(rots)@, geos: final(geos).deep_view() },
                ) && binv(final(smd)@),
                Err(Error::DuplicateBoneName(_)) => outcome is DupName,
                Err(Error::UnattachedGeometry) => outcome is Unattached,
                Err(Error::MalformedPolygon) => outcome is BadPolygon,
                Err(Error::WrongNodeLayout(_)) => outcome is BadLayout,
                Err(_) => false,
            }
        }),
    decreases fuel, 1int, 0int,
{
    if fuel == 0 {
        return Err(Error::WrongNodeLayout(String::from_str("object hierarchy is too deep")));
    }
    let oi = match fbx.object_index(id) {
        Some(oi) => oi,
        None => {
            return Ok(());
        },
    };
    proof {
        crate::simple::lemma_object_index_props(fbx@.objects, id);
    }
    match &fbx.objects[oi].class {
        ObjectType::Geometry(geom) => {
            let b = match bone {
                Some(b) => b,
                None => {
                    return Err(Error::UnattachedGeometry);
                },
            };
            process_geometry(geom, b, chain, geos)
        },
        ObjectType::Model(_) => {
            let bid = match process_model(fbx, &fbx.objects[oi], flip_fix_list, bone, smd, rots) {
                Ok(bid) => bid,
                Err(e) => {
                    return Err(e);
                },
            };
            let mut chain2 = chain.clone();
            proof {
                assert(chain2@ =~= chain@);
            }
            chain2.push(id);
            let kids = fbx.children_of(id);
            process_children(
                fbx,
                flip_fix_list,
                &kids,
                Some(bid),
                &chain2,
                smd,
                rots,
                geos,
                fuel - 1,
            )
        },
        _ => {
            let kids = fbx.children_of(id);
            process_children(fbx, flip_fix_list, &kids, bone, chain, smd, rots, geos, fuel - 1)
        },
    }
}

/// Walks a run of siblings, as `spec_process_list` says.
fn process_children(
    fbx: &SimpleFbx,
    flip_fix_list: &Vec<String>,
    kids: &Vec<ObjectId>,
    bone: Option<BoneId>,
    chain: &Vec<ObjectId>,
    smd: &mut Smd,
    rots: &mut Vec<RotationJob>,
    geos: &mut Vec<GeometryJob>,
    fuel: u64,
) -> (r: Result<(), Error>)
    requires
        binv(old(smd)@),
        bone matches Some(b) ==> b >= 0,
    ensures
        ({
            let outcome = spec_process_list(
                fbx@,
                strs_view(flip_fix_list@),
                kids@,
                bone,
                chain@,
                BuildState { smd: old(smd)@, rots: old(rots)@, geos: old(geos).deep_view() },
                fuel as nat,
            );
            match r {
                Ok(()) => outcome == BuildOutcome::Done(
                    BuildState { smd: final(smd)@, rots: final(rots)@, geos: final(geos).deep_view() },
                ) && binv(final(smd)@),
                Err(Error::DuplicateBoneName(_)) => outcome is DupName,
                Err(Error::UnattachedGeometry) => outcome is Unattached,
                Err(Error::MalformedPolygon) => outcome is BadPolygon,
                Err(Error::WrongNodeLayout(_)) => outcome is BadLayout,
                Err(_) => false,
            }
        }),
    decreases fuel, 2int, kids@.len(),
{
    let ghost st0 = BuildState {
        smd: old(smd)@,
        rots: old(rots)@,
        geos: old(geos).deep_view(),
    };
    let mut i: usize = 0;
    proof {
        assert(kids@.skip(0) =~= kids@);
    }
    while i < kids.len()
        invariant
            i <= kids@.len(),
            binv(smd@),
            bone matches Some(b) ==> b >= 0,
            st0 == (BuildState {
                smd: old(smd)@,
                rots: old(rots)@,
                geos: old(geos).deep_view(),
            }),
            spec_process_list(
                fbx@,
                strs_view(flip_fix_list@),
                kids@,
                bone,
                chain@,
                st0,
                fuel as nat,
            ) == spec_process_list(
                fbx@,
                strs_view(flip_fix_list@),
                kids@.skip(i as int),
                bone,
                chain@,
                BuildState { smd: smd@, rots: rots@, geos: geos.deep_view() },
                fuel as nat,
            ),
        decreases kids@.len() - i,
    {
        proof {
            lemma_process_list_step(
                fbx@,
                strs_view(flip_fix_list@),
                kids@,
                bone,
                chain@,
                BuildState { smd: smd@, rots: rots@, geos: geos.deep_view() },
                fuel as nat,
                i as int,
            );
        }
        match process_fbx_node(fbx, flip_fix_list, kids[i], bone, chain, smd, rots, geos, fuel) {
            Ok(()) => {},
            Err(e) => {
                return Err(e);
            },
        }
        i = i + 1;
    }
    proof {
        assert(kids@.skip(i as int) =~= Seq::<i64>::empty());
    }
    Ok(())
}

/// The walk depth budget for a graph: one level per object, plus the root.
pub open spec fn spec_build_fuel(n: nat) -> nat {
    if n + 1 < 0x1_0000_0000_0000_0000 {
        n + 1
    } else {
        n
    }
}

/// Builds the reference export out of a graph: every model becomes a bone
/// with its exact frame-0 translation (rotation inputs and meshes are
/// returned as jobs for the caller's numeric pass).
pub fn create_reference_smd(fbx: &SimpleFbx, flip_fix_list: &Vec<String>) -> (r: Result<
    (Smd, Vec<RotationJob>, Vec<GeometryJob>),
    Error,
>)
    ensures
        ({
            let outcome = spec_process_list(
                fbx@,
                strs_view(flip_fix_list@),
                spec_children_of(fbx@.connections, 0),
                None,
                Seq::empty(),
                BuildState {
                    smd: SmdView {
                        bones: Seq::empty(),
                        frames: Seq::empty(),
                        triangles: Seq::empty(),
                    },
                    rots: Seq::empty(),
                    geos: Seq::empty(),
                },
                spec_build_fuel(fbx@.objects.len()),
            );
            match r {
                Ok((smd, rots, geos)) => outcome == BuildOutcome::Done(
                    BuildState { smd: smd@, rots: rots@, geos: geos.deep_view() },
                ) && binv(smd@),
                Err(Error::DuplicateBoneName(_)) => outcome is DupName,
                Err(Error::UnattachedGeometry) => outcome is Unattached,
                Err(Error::MalformedPolygon) => outcome is BadPolygon,
                Err(Error::WrongNodeLayout(_)) => outcome is BadLayout,
                Err(_) => false,
            }
        }),
{
    let mut smd = Smd::new();
    let mut rots: Vec<RotationJob> = Vec::new();
    let mut geos: Vec<GeometryJob> = Vec::new();
    let chain: Vec<ObjectId> = Vec::new();
    let kids = fbx.children_of(0);
    proof {
        assert(rots@ =~= Seq::<RotationJob>::empty());
        assert(geos.deep_view() =~= Seq::<GeometryJobView>::empty());
        assert(chain@ =~= Seq::<i64>::empty());
    }
    let l: u64 = fbx.objects.len() as u64;
    let fuel: u64 = if l < 0xFFFF_FFFF_FFFF_FFFF {
        l + 1
    } else {
        l
    };
    match process_children(fbx, flip_fix_list, &kids, None, &chain, &mut smd, &mut rots, &mut geos, fuel) {
        Ok(()) => Ok((smd, rots, geos)),
        Err(e) => Err(e),
    }
}

/// One model of one frame baked: where the reference skeleton knows a bone
/// of the model's identifier name, the bone's transform at this frame is
/// set to the model's exact translation (rotation zeroed, its inputs
/// queued); models the reference pass never saw are passed over.
#[verifier::opaque]
pub open spec fn spec_bake_models(
    g: GraphView,
    ref_bones: Seq<SmdBoneView>,
    flip: Seq<Seq<char>>,
    frame: i32,
    i: nat,
    smd: SmdView,
    rots: Seq<RotationJob>,
) -> (SmdView, Seq<RotationJob>)
    decreases g.objects.len() - i,
{
    if i >= g.objects.len() {
        (smd, rots)
    } else {
        let o = g.objects[i as int];
        if o.class is Model {
            match spec_bone_by_name(ref_bones, spec_id_name(o.name)) {
                Some(bid) => {
                    let smd2 = SmdView {
                        bones: smd.bones,
                        frames: spec_set_animation(
                            smd.frames,
                            frame,
                            bid,
                            SmdAnimationFrameBone {
                                translation: spec_bone_translation(g, o),
                                rotation: v3_zero(),
                            },
                        ),
                        triangles: smd.triangles,
                    };
                    spec_bake_models(
                        g,
                        ref_bones,
                        flip,
                        frame,
                        i + 1,
                        smd2,
                        rots.push(
                            RotationJob { bone: bid, frame, rotation: spec_bone_rotation(o, flip) },
                        ),
                    )
                },
                None => spec_bake_models(g, ref_bones, flip, frame, i + 1, smd, rots),
            }
        } else {
            spec_bake_models(g, ref_bones, flip, frame, i + 1, smd, rots)
        }
    }
}

/// Past the end of the arena, the bake is finished.
proof fn lemma_bake_models_end(
    g: GraphView,
    ref_bones: Seq<SmdBoneView>,
    flip: Seq<Seq<char>>,
    frame: i32,
    i: nat,
    smd: SmdView,
    rots: Seq<RotationJob>,
)
    requires
        i >= g.objects.len(),
    ensures
        spec_bake_models(g, ref_bones, flip, frame, i, smd, rots) == (smd, rots),
{
    reveal(spec_bake_models);
}

/// The frames of an animation baked in order: each frame first evaluated
/// into the graph, then read off every model.
pub open spec fn spec_bake_frames(
    objs: Seq<ObjectView>,
    cs: Seq<ConnectionView>,
    nodes: Seq<i64>,
    ref_bones: Seq<SmdBoneView>,
    flip: Seq<Seq<char>>,
    frame: nat,
    count: nat,
    smd: SmdView,
    rots: Seq<RotationJob>,
) -> (Seq<ObjectView>, SmdView, Seq<RotationJob>)
    decreases count - frame,
{
    if frame >= count {
        (objs, smd, rots)
    } else {
        let objs1 = spec_evaluate(objs, cs, nodes, frame as i32);
        let st1 = spec_bake_models(
            GraphView { objects: objs1, connections: cs },
            ref_bones,
            flip,
            frame as i32,
            0,
            smd,
            rots,
        );
        spec_bake_frames(objs1, cs, nodes, ref_bones, flip, frame + 1, count, st1.0, st1.1)
    }
}

/// One step of the index recursion behind `spec_bake_models`.
proof fn lemma_bake_models_step(
    g: GraphView,
    ref_bones: Seq<SmdBoneView>,
    flip: Seq<Seq<char>>,
    frame: i32,
    i: nat,
    smd: SmdView,
    rots: Seq<RotationJob>,
)
    requires
        i < g.objects.len(),
    ensures
        spec_bake_models(g, ref_bones, flip, frame, i, smd, rots) == ({
            let o = g.objects[i as int];
            if o.class is Model {
                match spec_bone_by_name(ref_bones, spec_id_name(o.name)) {
                    Some(bid) => {
                        let smd2 = SmdView {
                            bones: smd.bones,
                            frames: spec_set_animation(
                                smd.frames,
                                frame,
                                bid,
                                SmdAnimationFrameBone {
                                    translation: spec_bone_translation(g, o),
                                    rotation: v3_zero(),
                                },
                            ),
                            triangles: smd.triangles,
                        };
                        spec_bake_models(
                            g,
                            ref_bones,
                            flip,
                            frame,
                            i + 1,
                            smd2,
                            rots.push(
                                RotationJob {
                                    bone: bid,
                                    frame,
                                    rotation: spec_bone_rotation(o, flip),
                                },
                            ),
                        )
                    },
                    None => spec_bake_models(g, ref_bones, flip, frame, i + 1, smd, rots),
                }
            } else {
                spec_bake_models(g, ref_bones, flip, frame, i + 1, smd, rots)
            }
        }),
{
    reveal(spec_bake_models);
}

/// Bakes one object of the already evaluated graph, as one step of
/// `spec_bake_models` says.
#[verifier::rlimit(100)]
fn bake_one_model(
    fbx: &SimpleFbx,
    oi: usize,
    ref_smd: &Smd,
    flip_fix_list: &Vec<String>,
    frame: i32,
    smd: &mut Smd,
    rots: &mut Vec<RotationJob>,
)
    requires
        oi < fbx@.objects.len(),
        frame >= 0,
        forall|i: int| 0 <= i < old(smd)@.frames.len() ==> (#[trigger] old(smd)@.frames[i]).time
            >= 0,
        forall|i: int, j: int|
            0 <= i < old(smd)@.frames.len() && 0 <= j < (#[trigger] old(smd)@.frames[i]).bones.len()
                ==> (#[trigger] old(smd)@.frames[i].bones[j]).0 >= 0,
        forall|i: int, j: int|
            0 <= i < old(smd)@.frames.len() && 0 <= j < (#[trigger] old(smd)@.frames[i]).bones.len()
                ==> {
                let fb = (#[trigger] old(smd)@.frames[i].bones[j]).1;
                v3_wf(fb.translation) && v3_wf(fb.rotation)
            },
        forall|i: int| 0 <= i < ref_smd@.bones.len() ==> (#[trigger] ref_smd@.bones[i]).id >= 0,
    ensures
        ({
            let o = fbx@.objects[oi as int];
            if o.class is Model {
                match spec_bone_by_name(ref_smd@.bones, spec_id_name(o.name)) {
                    Some(bid) => {
                        &&& final(smd)@ == (SmdView {
                            bones: old(smd)@.bones,
                            frames: spec_set_animation(
                                old(smd)@.frames,
                                frame,
                                bid,
                                SmdAnimationFrameBone {
                                    translation: spec_bone_translation(fbx@, o),
                                    rotation: v3_zero(),
                                },
                            ),
                            triangles: old(smd)@.triangles,
                        })
                        &&& final(rots)@ == old(rots)@.push(
                            RotationJob {
                                bone: bid,
                                frame,
                                rotation: spec_bone_rotation(
                                    o,
                                    strs_view(flip_fix_list@),
                                ),
                            },
                        )
                    },
                    None => final(smd)@ == old(smd)@ && final(rots)@ == old(rots)@,
                }
            } else {
                final(smd)@ == old(smd)@ && final(rots)@ == old(rots)@
            }
        }),
        final(smd)@.bones == old(smd)@.bones,
        final(smd)@.triangles == old(smd)@.triangles,
        forall|i: int| 0 <= i < final(smd)@.frames.len() ==> (#[trigger] final(smd)@.frames[i]).time
            >= 0,
        forall|i: int, j: int|
            0 <= i < final(smd)@.frames.len() && 0 <= j < (#[trigger] final(smd)@.frames[i]).bones.len() ==> (#[trigger] final(smd)@.frames[i].bones[j]).0 >= 0,
        forall|i: int, j: int|
            0 <= i < final(smd)@.frames.len() && 0 <= j < (#[trigger] final(smd)@.frames[i]).bones.len() ==> {
                let fb = (#[trigger] final(smd)@.frames[i].bones[j]).1;
                v3_wf(fb.translation) && v3_wf(fb.rotation)
            },
{
    proof {
        assert(fbx@.objects[oi as int] == fbx.objects@[oi as int]@);
    }
    match &fbx.objects[oi].class {
        ObjectType::Model(_) => {
            let idn = match crate::id_name(fbx.objects[oi].name.as_str()) {
                Some(n) => n,
                None => {
                    proof {
                        assert(false);
                    }
                    return ;
                },
            };
            match ref_smd.id_of_bone(idn.as_str()) {
                Some(bid) => {
                    proof {
                        lemma_bone_by_name_nonneg(ref_smd@.bones, idn@);
                    }
                    let (translation, rotation) = calculate_animation_transforms_for(
                        fbx,
                        &fbx.objects[oi],
                        flip_fix_list,
                    );
                    proof {
                        lemma_set_animation_wf(
                            smd@.frames,
                            frame,
                            bid,
                            SmdAnimationFrameBone { translation, rotation: v3_zero() },
                        );
                    }
                    smd.set_animation(
                        frame,
                        bid,
                        SmdAnimationFrameBone { translation, rotation: V3 { x: 0, y: 0, z: 0 } },
                    );
                    rots.push(RotationJob { bone: bid, frame, rotation });
                },
                None => {},
            }
        },
        _ => {},
    }
}

/// Bakes every model of the already evaluated graph into the export for one
/// frame.
#[verifier::rlimit(100)]
#[verifier::spinoff_prover]
fn bake_models_for_frame(
    fbx: &SimpleFbx,
    ref_smd: &Smd,
    flip_fix_list: &Vec<String>,
    frame: i32,
    smd: &mut Smd,
    rots: &mut Vec<RotationJob>,
)
    requires
        frame >= 0,
        forall|i: int| 0 <= i < old(smd)@.frames.len() ==> (#[trigger] old(smd)@.frames[i]).time
            >= 0,
        forall|i: int, j: int|
            0 <= i < old(smd)@.frames.len() && 0 <= j < (#[trigger] old(smd)@.frames[i]).bones.len()
                ==> (#[trigger] old(smd)@.frames[i].bones[j]).0 >= 0,
        forall|i: int, j: int|
            0 <= i < old(smd)@.frames.len() && 0 <= j < (#[trigger] old(smd)@.frames[i]).bones.len()
                ==> {
                let fb = (#[trigger] old(smd)@.frames[i].bones[j]).1;
                v3_wf(fb.translation) && v3_wf(fb.rotation)
            },
        forall|i: int| 0 <= i < ref_smd@.bones.len() ==> (#[trigger] ref_smd@.bones[i]).id >= 0,
    ensures
        ({
            let st = spec_bake_models(
                fbx@,
                ref_smd@.bones,
                strs_view(flip_fix_list@),
                frame,
                0,
                old(smd)@,
                old(rots)@,
            );
            &&& final(smd)@ == st.0
            &&& final(rots)@ == st.1
        }),
        final(smd)@.bones == old(smd)@.bones,
        final(smd)@.triangles == old(smd)@.triangles,
        forall|i: int| 0 <= i < final(smd)@.frames.len() ==> (#[trigger] final(smd)@.frames[i]).time
            >= 0,
        forall|i: int, j: int|
            0 <= i < final(smd)@.frames.len() && 0 <= j < (#[trigger] final(smd)@.frames[i]).bones.len() ==> (#[trigger] final(smd)@.frames[i].bones[j]).0 >= 0,
        forall|i: int, j: int|
            0 <= i < final(smd)@.frames.len() && 0 <= j < (#[trigger] final(smd)@.frames[i]).bones.len() ==> {
                let fb = (#[trigger] final(smd)@.frames[i].bones[j]).1;
                v3_wf(fb.translation) && v3_wf(fb.rotation)
            },
{
    let ghost flip = strs_view(flip_fix_list@);
    let mut i: usize = 0;
    while i < fbx.objects.len()
        invariant
            i <= fbx@.objects.len(),
            frame >= 0,
            flip == strs_view(flip_fix_list@),
            forall|a: int| 0 <= a < ref_smd@.bones.len() ==> (#[trigger] ref_smd@.bones[a]).id
                >= 0,
            spec_bake_models(fbx@, ref_smd@.bones, flip, frame, 0, old(smd)@, old(rots)@)
                == spec_bake_models(fbx@, ref_smd@.bones, flip, frame, i as nat, smd@, rots@),
            smd@.bones == old(smd)@.bones,
            smd@.triangles == old(smd)@.triangles,
            forall|a: int| 0 <= a < smd@.frames.len() ==> (#[trigger] smd@.frames[a]).time >= 0,
            forall|a: int, b: int|
                0 <= a < smd@.frames.len() && 0 <= b < (#[trigger] smd@.frames[a]).bones.len()
                    ==> (#[trigger] smd@.frames[a].bones[b]).0 >= 0,
            forall|a: int, b: int|
                0 <= a < smd@.frames.len() && 0 <= b < (#[trigger] smd@.frames[a]).bones.len()
                    ==> {
                    let fb = (#[trigger] smd@.frames[a].bones[b]).1;
                    v3_wf(fb.translation) && v3_wf(fb.rotation)
                },
        decreases fbx@.objects.len() - i,
    {
        let ghost pre_smd = smd@;
        let ghost pre_rots = rots@;
        proof {
            lemma_bake_models_step(fbx@, ref_smd@.bones, flip, frame, i as nat, pre_smd, pre_rots);
        }
        bake_one_model(fbx, i, ref_smd, flip_fix_list, frame, smd, rots);
        proof {
            let o = fbx@.objects[i as int];
            if o.class is Model {
                match spec_bone_by_name(ref_smd@.bones, spec_id_name(o.name)) {
                    Some(bid) => {
                        assert(spec_bake_models(
                            fbx@,
                            ref_smd@.bones,
                            flip,
                            frame,
                            i as nat,
                            pre_smd,
                            pre_rots,
                        ) == spec_bake_models(
                            fbx@,
                            ref_smd@.bones,
                            flip,
                            frame,
                            i as nat + 1,
                            smd@,
                            rots@,
                        ));
                    },
                    None => {
                        assert(smd@ == pre_smd);
                        assert(rots@ == pre_rots);
                    },
                }
            } else {
                assert(smd@ == pre_smd);
                assert(rots@ == pre_rots);
            }
        }
        i = i + 1;
    }
    proof {
        lemma_bake_models_end(fbx@, ref_smd@.bones, flip, frame, i as nat, smd@, rots@);
    }
}

/// A bone found by name in a list of non-negative ids carries one.
proof fn lemma_bone_by_name_nonneg(bs: Seq<SmdBoneView>, name: Seq<char>)
    requires
        forall|i: int| 0 <= i < bs.len() ==> (#[trigger] bs[i]).id >= 0,
    ensures
        spec_bone_by_name(bs, name) matches Some(b) ==> b >= 0,
    decreases bs.len(),
{
    if bs.len() > 0 && bs[0].name != name {
        assert(forall|i: int|
            0 <= i < bs.drop_first().len() ==> (#[trigger] bs.drop_first()[i]).id >= 0);
        lemma_bone_by_name_nonneg(bs.drop_first(), name);
    }
}

/// Builds the animation export out of an animated graph: the reference
/// skeleton's bones are copied over, and for every frame the graph is
/// evaluated and each model known to the reference skeleton gets its exact
/// translation baked (rotation inputs are returned as jobs).
pub fn create_animation_smd(
    fbx: &mut SimpleFbx,
    ref_smd: &Smd,
    flip_fix_list: &Vec<String>,
) -> (r: Result<(Smd, Vec<RotationJob>), Error>)
    requires
        forall|i: int| 0 <= i < ref_smd@.bones.len() ==> (#[trigger] ref_smd@.bones[i]).id >= 0,
    ensures
        match r {
            Ok((smd, rots)) => {
                &&& crate::animation::spec_first_stack(old(fbx)@.objects) is Some
                &&& ({
                    let nodes = crate::animation::spec_curve_nodes(old(fbx)@);
                    let count = crate::animation::spec_frame_count(old(fbx)@, nodes);
                    let st = spec_bake_frames(
                        old(fbx)@.objects,
                        old(fbx)@.connections,
                        nodes,
                        ref_smd@.bones,
                        strs_view(flip_fix_list@),
                        0,
                        if count >= 0 {
                            count as nat
                        } else {
                            0
                        },
                        SmdView {
                            bones: ref_smd@.bones,
                            frames: Seq::empty(),
                            triangles: Seq::empty(),
                        },
                        Seq::empty(),
                    );
                    &&& final(fbx)@.objects == st.0
                    &&& final(fbx)@.connections == old(fbx)@.connections
                    &&& smd@ == st.1
                    &&& rots@ == st.2
                })
            },
            Err(Error::MissingRequiredNode(_)) => crate::animation::spec_first_stack(
                old(fbx)@.objects,
            ) is None && final(fbx)@ == old(fbx)@,
            Err(_) => false,
        },
{
    let anim = match Animation::from_simple(fbx) {
        Some(a) => a,
        None => {
            return Err(Error::MissingRequiredNode(String::from_str("AnimationStack")));
        },
    };
    let frame_count = anim.frame_count(fbx);
    let mut smd = Smd::new();
    let mut k: usize = 0;
    proof {
        assert(crate::smd::bones_view(smd.bones@) =~= ref_smd@.bones.take(0));
    }
    while k < ref_smd.bones.len()
        invariant
            k <= ref_smd@.bones.len(),
            smd@.frames == Seq::<crate::smd::SmdAnimationFrameView>::empty(),
            smd@.triangles == Seq::<crate::smd::SmdTriangleView>::empty(),
            smd@.bones == ref_smd@.bones.take(k as int),
        decreases ref_smd@.bones.len() - k,
    {
        let ghost obv = crate::smd::bones_view(smd.bones@);
        let b = &ref_smd.bones[k];
        let copy = crate::smd::SmdBone { id: b.id, name: b.name.clone(), parent: b.parent };
        let ghost cv = copy@;
        smd.bones.push(copy);
        proof {
            assert(cv == ref_smd@.bones[k as int]);
            assert(crate::smd::bones_view(smd.bones@) =~= obv.push(cv));
            assert(obv.push(cv) =~= ref_smd@.bones.take(k as int + 1));
        }
        k = k + 1;
    }
    proof {
        assert(ref_smd@.bones.take(k as int) =~= ref_smd@.bones);
    }
    let mut rots: Vec<RotationJob> = Vec::new();
    let ghost orig_objs = objs_view(fbx.objects@);
    let ghost cs = conns_view(fbx.connections@);
    let ghost nodes = anim@;
    let ghost count: nat = if frame_count >= 0 {
        frame_count as nat
    } else {
        0
    };
    let ghost smd0 = smd@;
    let mut frame: i32 = 0;
    proof {
        assert(rots@ =~= Seq::<RotationJob>::empty());
    }
    while frame_count > 0 && frame < frame_count
        invariant
            0 <= frame,
            frame_count > 0 ==> frame <= frame_count,
            frame_count <= 0 ==> frame == 0,
            count == if frame_count >= 0 {
                frame_count as nat
            } else {
                0nat
            },
            cs == conns_view(fbx.connections@),
            nodes == anim@,
            forall|i: int| 0 <= i < ref_smd@.bones.len() ==> (#[trigger] ref_smd@.bones[i]).id
                >= 0,
            spec_bake_frames(orig_objs, cs, nodes, ref_smd@.bones, strs_view(flip_fix_list@), 0,
                count, smd0, Seq::empty()) == spec_bake_frames(
                objs_view(fbx.objects@),
                cs,
                nodes,
                ref_smd@.bones,
                strs_view(flip_fix_list@),
                frame as nat,
                count,
                smd@,
                rots@,
            ),
            smd@.bones == smd0.bones,
            smd@.triangles == smd0.triangles,
            forall|a: int| 0 <= a < smd@.frames.len() ==> (#[trigger] smd@.frames[a]).time >= 0,
            forall|a: int, b: int|
                0 <= a < smd@.frames.len() && 0 <= b < (#[trigger] smd@.frames[a]).bones.len()
                    ==> (#[trigger] smd@.frames[a].bones[b]).0 >= 0,
            forall|a: int, b: int|
                0 <= a < smd@.frames.len() && 0 <= b < (#[trigger] smd@.frames[a]).bones.len()
                    ==> {
                    let fb = (#[trigger] smd@.frames[a].bones[b]).1;
                    v3_wf(fb.translation) && v3_wf(fb.rotation)
                },
        decreases frame_count - frame,
    {
        anim.transform_fbx_to_frame(fbx, frame);
        bake_models_for_frame(fbx, ref_smd, flip_fix_list, frame, &mut smd, &mut rots);
        frame = frame + 1;
    }
    Ok((smd, rots))
}

} // verus!
