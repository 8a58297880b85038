//! The export-side skeleton model: bones with unique names and stable ids,
//! per-frame bone transforms kept sorted, rigidly bound triangles, and the
//! textual export grammar.

use vstd::prelude::*;

use crate::fixed::{
    fmt_fx, fmt_i64, fmt_u64, fx_wf, spec_digits, spec_fx_text, spec_int_text, v3_wf, V2, V3,
};

verus! {

/// Integer key of a bone.
pub type BoneId = i32;

/// Specification view of a bone.
pub struct SmdBoneView {
    pub id: i32,
    pub name: Seq<char>,
    pub parent: Option<i32>,
}

/// One bone of the skeleton: a stable id, a name unique across the export,
/// and an optional parent.
#[derive(Debug, Clone)]
pub struct SmdBone {
    pub id: BoneId,
    pub name: String,
    pub parent: Option<BoneId>,
}

impl View for SmdBone {
    type V = SmdBoneView;

    open spec fn view(&self) -> SmdBoneView {
        SmdBoneView { id: self.id, name: self.name@, parent: self.parent }
    }
}

/// A rigid attachment of a vertex to one bone with some weight.
#[derive(Debug, Clone, Copy, PartialEq, Eq, Structural)]
pub struct SmdLink {
    pub bone: BoneId,
    pub weight: i64,
}

/// Specification view of a vertex.
pub struct SmdVertexView {
    pub parent_bone: i32,
    pub position: V3,
    pub normal: V3,
    pub uv: V2,
    pub links: Seq<SmdLink>,
}

/// One vertex of an exported triangle: bound to its parent bone, with
/// position, normal and texture coordinates in Q47.16 units.
#[derive(Debug, Clone)]
pub struct SmdVertex {
    pub parent_bone: BoneId,
    pub position: V3,
    pub normal: V3,
    pub uv: V2,
    pub links: Vec<SmdLink>,
}

impl View for SmdVertex {
    type V = SmdVertexView;

    open spec fn view(&self) -> SmdVertexView {
        SmdVertexView {
            parent_bone: self.parent_bone,
            position: self.position,
            normal: self.normal,
            uv: self.uv,
            links: self.links@,
        }
    }
}

/// Specification view of a triangle.
pub struct SmdTriangleView {
    pub material: Seq<char>,
    pub v0: SmdVertexView,
    pub v1: SmdVertexView,
    pub v2: SmdVertexView,
}

/// One exported triangle: a material name and its three vertices.
#[derive(Debug, Clone)]
pub struct SmdTriangle {
    pub material: String,
    pub v0: SmdVertex,
    pub v1: SmdVertex,
    pub v2: SmdVertex,
}

impl View for SmdTriangle {
    type V = SmdTriangleView;

    open spec fn view(&self) -> SmdTriangleView {
        SmdTriangleView { material: self.material@, v0: self.v0@, v1: self.v1@, v2: self.v2@ }
    }
}

impl DeepView for SmdTriangle {
    type V = SmdTriangleView;

    open spec fn deep_view(&self) -> SmdTriangleView {
        self.view()
    }
}

/// One bone's baked transform for one frame: translation and Euler
/// rotation, both in Q47.16 units (rotations in radians).
#[derive(Debug, Clone, Copy, PartialEq, Eq, Structural)]
pub struct SmdAnimationFrameBone {
    pub translation: V3,
    pub rotation: V3,
}

/// Specification view of one frame of animation.
pub struct SmdAnimationFrameView {
    pub time: i32,
    pub bones: Seq<(i32, SmdAnimationFrameBone)>,
}

/// One frame of animation: its index and the baked transform of each bone,
/// kept sorted by bone id.
#[derive(Debug, Clone)]
pub struct SmdAnimationFrame {
    pub time: i32,
    pub bones: Vec<(BoneId, SmdAnimationFrameBone)>,
}

impl View for SmdAnimationFrame {
    type V = SmdAnimationFrameView;

    open spec fn view(&self) -> SmdAnimationFrameView {
        SmdAnimationFrameView { time: self.time, bones: self.bones@ }
    }
}

impl DeepView for SmdAnimationFrame {
    type V = SmdAnimationFrameView;

    open spec fn deep_view(&self) -> SmdAnimationFrameView {
        self.view()
    }
}

/// Specification view of a whole export.
pub struct SmdView {
    pub bones: Seq<SmdBoneView>,
    pub frames: Seq<SmdAnimationFrameView>,
    pub triangles: Seq<SmdTriangleView>,
}

/// A whole export: the skeleton, the animation frames sorted by frame
/// index, and the triangles.
#[derive(Debug)]
pub struct Smd {
    pub bones: Vec<SmdBone>,
    pub animation_frames: Vec<SmdAnimationFrame>,
    pub triangles: Vec<SmdTriangle>,
}

/// The view of a bone list.
pub open spec fn bones_view(bs: Seq<SmdBone>) -> Seq<SmdBoneView> {
    bs.map_values(|b: SmdBone| b@)
}

impl View for Smd {
    type V = SmdView;

    open spec fn view(&self) -> SmdView {
        SmdView {
            bones: bones_view(self.bones@),
            frames: self.animation_frames.deep_view(),
            triangles: self.triangles.deep_view(),
        }
    }
}

/// The id of the first bone with the given name, if any.
pub open spec fn spec_bone_by_name(bs: Seq<SmdBoneView>, name: Seq<char>) -> Option<i32>
    decreases bs.len(),
{
    if bs.len() == 0 {
        None
    } else if bs[0].name == name {
        Some(bs[0].id)
    } else {
        spec_bone_by_name(bs.drop_first(), name)
    }
}

/// The fresh bone id handed out next: one more than the largest id seen
/// while scanning in insertion order, and at least 0.
pub open spec fn spec_fresh_bone_id(bs: Seq<SmdBoneView>) -> int
    decreases bs.len(),
{
    if bs.len() == 0 {
        0
    } else {
        let p = spec_fresh_bone_id(bs.drop_last());
        if bs.last().id >= p {
            bs.last().id + 1
        } else {
            p
        }
    }
}

/// One step of the suffix recursion behind `spec_bone_by_name`.
proof fn lemma_bone_by_name_step(bs: Seq<SmdBoneView>, name: Seq<char>, i: int)
    requires
        0 <= i < bs.len(),
    ensures
        spec_bone_by_name(bs.skip(i), name) == if bs[i].name == name {
            Some(bs[i].id)
        } else {
            spec_bone_by_name(bs.skip(i + 1), name)
        },
{
    assert(bs.skip(i).len() > 0);
    assert(bs.skip(i)[0] == bs[i]);
    assert(bs.skip(i).drop_first() =~= bs.skip(i + 1));
}

/// A frame's bone list with one bone's transform set: entries with a
/// smaller id stay in front, an entry with the same id is replaced, and
/// otherwise the new entry is spliced in, so a sorted list stays sorted.
pub open spec fn spec_insert_bone_frame(
    bones: Seq<(i32, SmdAnimationFrameBone)>,
    id: i32,
    b: SmdAnimationFrameBone,
) -> Seq<(i32, SmdAnimationFrameBone)>
    decreases bones.len(),
{
    if bones.len() == 0 {
        seq![(id, b)]
    } else if bones[0].0 < id {
        seq![bones[0]] + spec_insert_bone_frame(bones.drop_first(), id, b)
    } else if bones[0].0 == id {
        seq![(id, b)] + bones.drop_first()
    } else {
        seq![(id, b)] + bones
    }
}

/// The frame list with one bone's transform set at one frame index: frames
/// with a smaller index stay in front, a frame with the same index absorbs
/// the entry, and otherwise a new frame is spliced in.
pub open spec fn spec_set_animation(
    frames: Seq<SmdAnimationFrameView>,
    time: i32,
    id: i32,
    b: SmdAnimationFrameBone,
) -> Seq<SmdAnimationFrameView>
    decreases frames.len(),
{
    if frames.len() == 0 {
        seq![SmdAnimationFrameView { time, bones: seq![(id, b)] }]
    } else if frames[0].time < time {
        seq![frames[0]] + spec_set_animation(frames.drop_first(), time, id, b)
    } else if frames[0].time == time {
        seq![
            SmdAnimationFrameView { time, bones: spec_insert_bone_frame(frames[0].bones, id, b) },
        ] + frames.drop_first()
    } else {
        seq![SmdAnimationFrameView { time, bones: seq![(id, b)] }] + frames
    }
}

impl Smd {
    /// An empty export.
    pub fn new() -> (r: Smd)
        ensures
            r@.bones == Seq::<SmdBoneView>::empty(),
            r@.frames == Seq::<SmdAnimationFrameView>::empty(),
            r@.triangles == Seq::<SmdTriangleView>::empty(),
    {
        let r = Smd { bones: Vec::new(), animation_frames: Vec::new(), triangles: Vec::new() };
        proof {
            assert(r@.bones =~= Seq::<SmdBoneView>::empty());
            assert(r@.frames =~= Seq::<SmdAnimationFrameView>::empty());
            assert(r@.triangles =~= Seq::<SmdTriangleView>::empty());
        }
        r
    }

    /// Creates a bone under a fresh id, parented as given — unless a bone of
    /// that name already exists, which yields nothing: bone names are unique
    /// across one export, and bones made under different names always carry
    /// distinct ids.
    pub fn new_bone(&mut self, name: &str, parent: Option<BoneId>) -> (r: Option<SmdBone>)
        requires
            forall|i: int|
                0 <= i < old(self)@.bones.len() ==> (#[trigger] old(self)@.bones[i]).id < i32::MAX,
        ensures
            final(self)@.frames == old(self)@.frames,
            final(self)@.triangles == old(self)@.triangles,
            match r {
                Some(b) => {
                    &&& spec_bone_by_name(old(self)@.bones, name@) is None
                    &&& b@.id == spec_fresh_bone_id(old(self)@.bones)
                    &&& b@.name == name@
                    &&& b@.parent == parent
                    &&& final(self)@.bones == old(self)@.bones.push(b@)
                    &&& forall|i: int|
                        0 <= i < old(self)@.bones.len() ==> (#[trigger] old(
                            self,
                        )@.bones[i]).id != b@.id
                },
                None => {
                    &&& spec_bone_by_name(old(self)@.bones, name@) is Some
                    &&& final(self)@.bones == old(self)@.bones
                },
            },
    {
        let ghost bv = bones_view(self.bones@);
        let mut i: usize = 0;
        proof {
            assert(bv.skip(0) =~= bv);
        }
        while i < self.bones.len()
            invariant
                i <= self.bones@.len(),
                bv == bones_view(self.bones@),
                bv.len() == self.bones@.len(),
                forall|j: int| 0 <= j < bv.len() ==> bv[j] == self.bones@[j]@,
                spec_bone_by_name(bv, name@) == spec_bone_by_name(bv.skip(i as int), name@),
            decreases self.bones@.len() - i,
        {
            proof {
                lemma_bone_by_name_step(bv, name@, i as int);
            }
            if crate::node::str_eq(&self.bones[i].name, name) {
                return None;
            }
            i = i + 1;
        }
        proof {
            assert(bv.skip(i as int) =~= Seq::<SmdBoneView>::empty());
        }
        let mut id: BoneId = 0;
        let mut k: usize = 0;
        proof {
            assert(bv.take(0) =~= Seq::<SmdBoneView>::empty());
            assert(bv == self@.bones);
            assert forall|j: int| 0 <= j < bv.len() implies (#[trigger] bv[j]).id < i32::MAX by {
                assert(self@.bones[j].id < i32::MAX);
            }
        }
        while k < self.bones.len()
            invariant
                k <= self.bones@.len(),
                bv == bones_view(self.bones@),
                bv.len() == self.bones@.len(),
                forall|j: int| 0 <= j < bv.len() ==> bv[j] == self.bones@[j]@,
                forall|j: int| 0 <= j < bv.len() ==> (#[trigger] bv[j]).id < i32::MAX,
                id == spec_fresh_bone_id(bv.take(k as int)),
                0 <= id,
                forall|j: int| 0 <= j < k ==> (#[trigger] bv[j]).id < id,
            decreases self.bones@.len() - k,
        {
            proof {
                assert(bv.take(k as int + 1).drop_last() =~= bv.take(k as int));
                assert(bv.take(k as int + 1).last() == bv[k as int]);
            }
            if self.bones[k].id >= id {
                id = self.bones[k].id + 1;
            }
            k = k + 1;
        }
        proof {
            assert(bv.take(k as int) =~= bv);
        }
        let bone = SmdBone { id, name: String::from_str(name), parent };
        let ghost bone_v = bone@;
        let r = SmdBone { id, name: String::from_str(name), parent };
        proof {
            assert(r@ == bone_v);
        }
        self.bones.push(bone);
        proof {
            assert(bones_view(self.bones@) =~= bv.push(bone_v));
        }
        Some(r)
    }

    /// The id of the first bone with the given name, if any.
    pub fn id_of_bone(&self, name: &str) -> (r: Option<BoneId>)
        ensures
            r == spec_bone_by_name(self@.bones, name@),
    {
        let ghost bv = bones_view(self.bones@);
        let mut i: usize = 0;
        proof {
            assert(bv.skip(0) =~= bv);
        }
        while i < self.bones.len()
            invariant
                i <= self.bones@.len(),
                bv == bones_view(self.bones@),
                bv.len() == self.bones@.len(),
                forall|j: int| 0 <= j < bv.len() ==> bv[j] == self.bones@[j]@,
                spec_bone_by_name(bv, name@) == spec_bone_by_name(bv.skip(i as int), name@),
            decreases self.bones@.len() - i,
        {
            proof {
                lemma_bone_by_name_step(bv, name@, i as int);
            }
            if crate::node::str_eq(&self.bones[i].name, name) {
                return Some(self.bones[i].id);
            }
            i = i + 1;
        }
        proof {
            assert(bv.skip(i as int) =~= Seq::<SmdBoneView>::empty());
        }
        None
    }

    /// Appends one triangle to the export.
    pub fn push_triangle(&mut self, t: SmdTriangle)
        ensures
            final(self)@.bones == old(self)@.bones,
            final(self)@.frames == old(self)@.frames,
            final(self)@.triangles == old(self)@.triangles.push(t@),
    {
        let ghost tv = t@;
        self.triangles.push(t);
        proof {
            assert(self.triangles.deep_view() =~= old(self).triangles.deep_view().push(tv));
        }
    }

    /// Sets the state of one bone at one frame, overwriting anything
    /// previously there, and keeping frames sorted by index and each
    /// frame's bones sorted by id.
    pub fn set_animation(&mut self, frame: i32, bone_id: BoneId, bone: SmdAnimationFrameBone)
        ensures
            final(self)@.bones == old(self)@.bones,
            final(self)@.triangles == old(self)@.triangles,
            final(self)@.frames == spec_set_animation(old(self)@.frames, frame, bone_id, bone),
    {
        let ghost fv = self.animation_frames.deep_view();
        let mut i: usize = 0;
        proof {
            assert(fv.skip(0) =~= fv);
            assert(fv.take(0) + spec_set_animation(fv.skip(0), frame, bone_id, bone)
                =~= spec_set_animation(fv, frame, bone_id, bone));
        }
        while i < self.animation_frames.len()
            invariant
                i <= self.animation_frames@.len(),
                fv == old(self)@.frames,
                bones_view(self.bones@) == old(self)@.bones,
                self.triangles.deep_view() == old(self)@.triangles,
                fv == self.animation_frames.deep_view(),
                fv.len() == self.animation_frames@.len(),
                forall|j: int| 0 <= j < fv.len() ==> fv[j] == self.animation_frames@[j]@,
                forall|j: int| 0 <= j < i ==> (#[trigger] fv[j]).time < frame,
                spec_set_animation(fv, frame, bone_id, bone) == fv.take(i as int)
                    + spec_set_animation(fv.skip(i as int), frame, bone_id, bone),
            decreases fv.len() - i,
        {
            if self.animation_frames[i].time >= frame {
                if self.animation_frames[i].time == frame {
                    // Absorb into this frame.
                    let mut f = self.animation_frames.remove(i);
                    let ghost old_f = f@;
                    insert_bone_entry(&mut f.bones, bone_id, bone);
                    let ghost new_f = f@;
                    self.animation_frames.insert(i, f);
                    proof {
                        assert(new_f.bones == spec_insert_bone_frame(old_f.bones, bone_id, bone));
                        assert(new_f.time == frame);
                        assert(fv.skip(i as int)[0] == fv[i as int]);
                        assert(fv.skip(i as int).drop_first() =~= fv.skip(i as int + 1));
                        assert(spec_set_animation(fv.skip(i as int), frame, bone_id, bone)
                            =~= seq![new_f] + fv.skip(i as int + 1));
                        assert(self.animation_frames.deep_view() =~= fv.take(i as int) + (seq![
                            new_f,
                        ] + fv.skip(i as int + 1)));
                        assert(self.animation_frames.deep_view() == spec_set_animation(
                            fv,
                            frame,
                            bone_id,
                            bone,
                        ));
                    }
                    return ;
                } else {
                    // Splice a new frame in before this one.
                    let f = SmdAnimationFrame { time: frame, bones: vec![(bone_id, bone)] };
                    let ghost new_f = f@;
                    self.animation_frames.insert(i, f);
                    proof {
                        assert(new_f.bones =~= seq![(bone_id, bone)]);
                        assert(fv.skip(i as int)[0] == fv[i as int]);
                        assert(spec_set_animation(fv.skip(i as int), frame, bone_id, bone)
                            =~= seq![new_f] + fv.skip(i as int));
                        assert(self.animation_frames.deep_view() =~= fv.take(i as int) + (seq![
                            new_f,
                        ] + fv.skip(i as int)));
                        assert(self.animation_frames.deep_view() == spec_set_animation(
                            fv,
                            frame,
                            bone_id,
                            bone,
                        ));
                    }
                    return ;
                }
            }
            proof {
                lemma_set_animation_step(fv, frame, bone_id, bone, i as int);
            }
            i = i + 1;
        }
        // Every frame sits before the new index: append a fresh frame.
        let f = SmdAnimationFrame { time: frame, bones: vec![(bone_id, bone)] };
        let ghost new_f = f@;
        self.animation_frames.push(f);
        proof {
            assert(fv.skip(i as int) =~= Seq::<SmdAnimationFrameView>::empty());
            assert(new_f.bones =~= seq![(bone_id, bone)]);
            assert(fv.take(i as int) =~= fv);
            assert(self.animation_frames.deep_view() =~= fv + seq![new_f]);
            assert(fv + seq![new_f] =~= fv.take(i as int) + spec_set_animation(
                fv.skip(i as int),
                frame,
                bone_id,
                bone,
            ));
            assert(self.animation_frames.deep_view() == spec_set_animation(
                fv,
                frame,
                bone_id,
                bone,
            ));
        }
    }
}

/// One step of the prefix recursion behind `spec_set_animation`: while the
/// frame at the front sits before the new index, it stays in front.
proof fn lemma_set_animation_step(
    fv: Seq<SmdAnimationFrameView>,
    time: i32,
    id: i32,
    b: SmdAnimationFrameBone,
    i: int,
)
    requires
        0 <= i < fv.len(),
        fv[i].time < time,
    ensures
        fv.take(i) + spec_set_animation(fv.skip(i), time, id, b) == fv.take(i + 1)
            + spec_set_animation(fv.skip(i + 1), time, id, b),
{
    assert(fv.skip(i).len() > 0);
    assert(fv.skip(i)[0] == fv[i]);
    assert(fv.skip(i).drop_first() =~= fv.skip(i + 1));
    assert(spec_set_animation(fv.skip(i), time, id, b) == seq![fv[i]] + spec_set_animation(
        fv.skip(i + 1),
        time,
        id,
        b,
    ));
    assert(fv.take(i) + (seq![fv[i]] + spec_set_animation(fv.skip(i + 1), time, id, b)) =~= fv.take(
        i + 1,
    ) + spec_set_animation(fv.skip(i + 1), time, id, b));
}

/// Splices one bone's transform into a frame's bone list, keeping it sorted
/// by bone id and overwriting an entry with the same id.
fn insert_bone_entry(
    bones: &mut Vec<(BoneId, SmdAnimationFrameBone)>,
    id: BoneId,
    b: SmdAnimationFrameBone,
)
    ensures
        final(bones)@ == spec_insert_bone_frame(old(bones)@, id, b),
{
    let ghost bv = bones@;
    let mut i: usize = 0;
    proof {
        assert(bv.skip(0) =~= bv);
        assert(bv.take(0) + spec_insert_bone_frame(bv.skip(0), id, b) =~= spec_insert_bone_frame(
            bv,
            id,
            b,
        ));
    }
    while i < bones.len()
        invariant
            i <= bv.len(),
            bv == old(bones)@,
            bv == bones@,
            spec_insert_bone_frame(bv, id, b) == bv.take(i as int) + spec_insert_bone_frame(
                bv.skip(i as int),
                id,
                b,
            ),
        decreases bv.len() - i,
    {
        proof {
            assert(bv.skip(i as int)[0] == bv[i as int]);
            assert(bv.skip(i as int).drop_first() =~= bv.skip(i as int + 1));
            if bv[i as int].0 < id {
                assert(spec_insert_bone_frame(bv.skip(i as int), id, b) == seq![bv[i as int]]
                    + spec_insert_bone_frame(bv.skip(i as int + 1), id, b));
                assert(bv.take(i as int) + (seq![bv[i as int]] + spec_insert_bone_frame(
                    bv.skip(i as int + 1),
                    id,
                    b,
                )) =~= bv.take(i as int + 1) + spec_insert_bone_frame(
                    bv.skip(i as int + 1),
                    id,
                    b,
                ));
            }
        }
        if bones[i].0 >= id {
            if bones[i].0 == id {
                bones.set(i, (id, b));
                proof {
                    assert(spec_insert_bone_frame(bv.skip(i as int), id, b) =~= seq![(id, b)]
                        + bv.skip(i as int + 1));
                    assert(bones@ =~= bv.take(i as int) + (seq![(id, b)] + bv.skip(i as int + 1)));
                    assert(bones@ == spec_insert_bone_frame(bv, id, b));
                }
                return ;
            } else {
                bones.insert(i, (id, b));
                proof {
                    assert(spec_insert_bone_frame(bv.skip(i as int), id, b) =~= seq![(id, b)]
                        + bv.skip(i as int));
                    assert(bones@ =~= bv.take(i as int) + (seq![(id, b)] + bv.skip(i as int)));
                    assert(bones@ == spec_insert_bone_frame(bv, id, b));
                }
                return ;
            }
        }
        i = i + 1;
    }
    bones.push((id, b));
    proof {
        assert(bv.skip(i as int) =~= Seq::<(i32, SmdAnimationFrameBone)>::empty());
        assert(bv.take(i as int) =~= bv);
        assert(bones@ =~= bv + seq![(id, b)]);
        assert(bv + seq![(id, b)] =~= bv.take(i as int) + spec_insert_bone_frame(
            bv.skip(i as int),
            id,
            b,
        ));
        assert(bones@ == spec_insert_bone_frame(bv, id, b));
    }
}

/// A vertex's coordinates are in range.
pub open spec fn vertex_wf(v: SmdVertexView) -> bool {
    &&& v3_wf(v.position)
    &&& v3_wf(v.normal)
    &&& fx_wf(v.uv.u as int)
    &&& fx_wf(v.uv.v as int)
    &&& forall|i: int| 0 <= i < v.links.len() ==> fx_wf((#[trigger] v.links[i]).weight as int)
}

/// Every coordinate stored in the export is in range.
pub open spec fn smd_wf(s: SmdView) -> bool {
    &&& forall|i: int, j: int|
        0 <= i < s.frames.len() && 0 <= j < (#[trigger] s.frames[i]).bones.len() ==> {
            let fb = (#[trigger] s.frames[i].bones[j]).1;
            v3_wf(fb.translation) && v3_wf(fb.rotation)
        }
    &&& forall|i: int|
        0 <= i < s.triangles.len() ==> {
            let t = #[trigger] s.triangles[i];
            vertex_wf(t.v0) && vertex_wf(t.v1) && vertex_wf(t.v2)
        }
}

/// One bone row of the nodes section.
pub open spec fn spec_bone_line(b: SmdBoneView) -> Seq<char> {
    spec_int_text(b.id as int) + " \""@ + b.name + "\" "@ + (match b.parent {
        Some(p) => spec_int_text(p as int),
        None => "-1"@,
    }) + "\n"@
}

/// The nodes section body, one row per bone in order.
pub open spec fn spec_bones_text(bs: Seq<SmdBoneView>) -> Seq<char>
    decreases bs.len(),
{
    if bs.len() == 0 {
        Seq::empty()
    } else {
        spec_bones_text(bs.drop_last()) + spec_bone_line(bs.last())
    }
}

/// One bone row of a skeleton frame.
pub open spec fn spec_frame_bone_line(id: i32, fb: SmdAnimationFrameBone) -> Seq<char> {
    spec_int_text(id as int) + "   "@ + spec_fx_text(fb.translation.x) + " "@ + spec_fx_text(
        fb.translation.y,
    ) + " "@ + spec_fx_text(fb.translation.z) + "   "@ + spec_fx_text(fb.rotation.x) + " "@
        + spec_fx_text(fb.rotation.y) + " "@ + spec_fx_text(fb.rotation.z) + "\n"@
}

/// The bone rows of one skeleton frame, in stored (sorted) order.
pub open spec fn spec_frame_bones_text(bones: Seq<(i32, SmdAnimationFrameBone)>) -> Seq<char>
    decreases bones.len(),
{
    if bones.len() == 0 {
        Seq::empty()
    } else {
        spec_frame_bones_text(bones.drop_last()) + spec_frame_bone_line(
            bones.last().0,
            bones.last().1,
        )
    }
}

/// One whole skeleton frame: its time row and its bone rows.
pub open spec fn spec_frame_text(f: SmdAnimationFrameView) -> Seq<char> {
    "time "@ + spec_int_text(f.time as int) + "\n"@ + spec_frame_bones_text(f.bones)
}

/// The skeleton section body, one frame after another.
pub open spec fn spec_frames_text(fs: Seq<SmdAnimationFrameView>) -> Seq<char>
    decreases fs.len(),
{
    if fs.len() == 0 {
        Seq::empty()
    } else {
        spec_frames_text(fs.drop_last()) + spec_frame_text(fs.last())
    }
}

/// The link entries at the end of a vertex row.
pub open spec fn spec_links_text(links: Seq<SmdLink>) -> Seq<char>
    decreases links.len(),
{
    if links.len() == 0 {
        Seq::empty()
    } else {
        spec_links_text(links.drop_last()) + spec_int_text(links.last().bone as int) + " "@
            + spec_fx_text(links.last().weight) + "  "@
    }
}

/// One vertex row of a triangle block.
pub open spec fn spec_vertex_line(v: SmdVertexView) -> Seq<char> {
    spec_int_text(v.parent_bone as int) + "   "@ + spec_fx_text(v.position.x) + " "@
        + spec_fx_text(v.position.y) + " "@ + spec_fx_text(v.position.z) + "   "@ + spec_fx_text(
        v.normal.x,
    ) + " "@ + spec_fx_text(v.normal.y) + " "@ + spec_fx_text(v.normal.z) + "   "@ + spec_fx_text(
        v.uv.u,
    ) + " "@ + spec_fx_text(v.uv.v) + "   "@ + spec_digits(v.links.len()) + "  "@
        + spec_links_text(v.links) + "\n"@
}

/// One triangle block: its material row and three vertex rows.
pub open spec fn spec_triangle_text(t: SmdTriangleView) -> Seq<char> {
    t.material + "\n"@ + spec_vertex_line(t.v0) + spec_vertex_line(t.v1) + spec_vertex_line(t.v2)
}

/// The triangles section body, one block per triangle in order.
pub open spec fn spec_triangles_text(ts: Seq<SmdTriangleView>) -> Seq<char>
    decreases ts.len(),
{
    if ts.len() == 0 {
        Seq::empty()
    } else {
        spec_triangles_text(ts.drop_last()) + spec_triangle_text(ts.last())
    }
}

/// The whole textual export.
pub open spec fn spec_export(s: SmdView) -> Seq<char> {
    "version 1\n"@ + "nodes\n"@ + spec_bones_text(s.bones) + "end\n"@ + "skeleton\n"@
        + spec_frames_text(s.frames) + "end\n"@ + "triangles\n"@ + spec_triangles_text(
        s.triangles,
    ) + "end\n"@
}

/// Formats one bone row of the nodes section.
fn bone_line(b: &SmdBone) -> (r: String)
    requires
        b.id > i32::MIN,
        b.parent matches Some(p) ==> p > i32::MIN,
    ensures
        r@ == spec_bone_line(b@),
{
    let mut s = fmt_i64(b.id as i64);
    s.append(" \"");
    s.append(b.name.as_str());
    s.append("\" ");
    match b.parent {
        Some(p) => {
            let pt = fmt_i64(p as i64);
            s.append(pt.as_str());
        },
        None => {
            s.append("-1");
        },
    }
    s.append("\n");
    proof {
        assert(s@ =~= spec_bone_line(b@));
    }
    s
}

/// Formats one bone row of a skeleton frame.
fn frame_bone_line(id: i32, fb: &SmdAnimationFrameBone) -> (r: String)
    requires
        id > i32::MIN,
        v3_wf(fb.translation),
        v3_wf(fb.rotation),
    ensures
        r@ == spec_frame_bone_line(id, *fb),
{
    let mut s = fmt_i64(id as i64);
    s.append("   ");
    let t = fmt_fx(fb.translation.x);
    s.append(t.as_str());
    s.append(" ");
    let t = fmt_fx(fb.translation.y);
    s.append(t.as_str());
    s.append(" ");
    let t = fmt_fx(fb.translation.z);
    s.append(t.as_str());
    s.append("   ");
    let t = fmt_fx(fb.rotation.x);
    s.append(t.as_str());
    s.append(" ");
    let t = fmt_fx(fb.rotation.y);
    s.append(t.as_str());
    s.append(" ");
    let t = fmt_fx(fb.rotation.z);
    s.append(t.as_str());
    s.append("\n");
    proof {
        assert(s@ =~= spec_frame_bone_line(id, *fb));
    }
    s
}

/// Formats one vertex row of a triangle block.
fn vertex_line(v: &SmdVertex) -> (r: String)
    requires
        v.parent_bone > i32::MIN,
        vertex_wf(v@),
        forall|i: int| 0 <= i < v.links@.len() ==> (#[trigger] v.links@[i]).bone > i32::MIN,
    ensures
        r@ == spec_vertex_line(v@),
{
    let mut s = fmt_i64(v.parent_bone as i64);
    s.append("   ");
    let t = fmt_fx(v.position.x);
    s.append(t.as_str());
    s.append(" ");
    let t = fmt_fx(v.position.y);
    s.append(t.as_str());
    s.append(" ");
    let t = fmt_fx(v.position.z);
    s.append(t.as_str());
    s.append("   ");
    let t = fmt_fx(v.normal.x);
    s.append(t.as_str());
    s.append(" ");
    let t = fmt_fx(v.normal.y);
    s.append(t.as_str());
    s.append(" ");
    let t = fmt_fx(v.normal.z);
    s.append(t.as_str());
    s.append("   ");
    let t = fmt_fx(v.uv.u);
    s.append(t.as_str());
    s.append(" ");
    let t = fmt_fx(v.uv.v);
    s.append(t.as_str());
    s.append("   ");
    let t = fmt_u64(v.links.len() as u64);
    s.append(t.as_str());
    s.append("  ");
    let ghost head = s@;
    let mut k: usize = 0;
    proof {
        assert(v@.links == v.links@);
        assert forall|i: int| 0 <= i < v.links@.len() implies fx_wf(
            (#[trigger] v.links@[i]).weight as int,
        ) by {
            assert(v@.links[i] == v.links@[i]);
        }
        assert(spec_links_text(v.links@.take(0)) =~= Seq::<char>::empty());
        assert(s@ =~= head + spec_links_text(v.links@.take(0)));
    }
    while k < v.links.len()
        invariant
            k <= v.links@.len(),
            forall|i: int| 0 <= i < v.links@.len() ==> (#[trigger] v.links@[i]).bone > i32::MIN,
            forall|i: int| 0 <= i < v.links@.len() ==> fx_wf((#[trigger] v.links@[i]).weight as int),
            s@ == head + spec_links_text(v.links@.take(k as int)),
        decreases v.links@.len() - k,
    {
        proof {
            assert(v.links@.take(k as int + 1).drop_last() =~= v.links@.take(k as int));
            assert(v.links@.take(k as int + 1).last() == v.links@[k as int]);
        }
        let t = fmt_i64(v.links[k].bone as i64);
        s.append(t.as_str());
        s.append(" ");
        let t = fmt_fx(v.links[k].weight);
        s.append(t.as_str());
        s.append("  ");
        k = k + 1;
        proof {
            assert(s@ =~= head + spec_links_text(v.links@.take(k as int)));
        }
    }
    proof {
        assert(v.links@.take(k as int) =~= v.links@);
    }
    s.append("\n");
    proof {
        assert(v@.links == v.links@);
        assert(s@ =~= spec_vertex_line(v@));
    }
    s
}

/// Formats one triangle block.
fn triangle_text(t: &SmdTriangle) -> (r: String)
    requires
        vertex_wf(t.v0@),
        vertex_wf(t.v1@),
        vertex_wf(t.v2@),
        t.v0.parent_bone > i32::MIN,
        t.v1.parent_bone > i32::MIN,
        t.v2.parent_bone > i32::MIN,
        forall|j: int| 0 <= j < t.v0.links@.len() ==> (#[trigger] t.v0.links@[j]).bone > i32::MIN,
        forall|j: int| 0 <= j < t.v1.links@.len() ==> (#[trigger] t.v1.links@[j]).bone > i32::MIN,
        forall|j: int| 0 <= j < t.v2.links@.len() ==> (#[trigger] t.v2.links@[j]).bone > i32::MIN,
    ensures
        r@ == spec_triangle_text(t@),
{
    let mut s = String::from_str(t.material.as_str());
    s.append("\n");
    let line = vertex_line(&t.v0);
    s.append(line.as_str());
    let line = vertex_line(&t.v1);
    s.append(line.as_str());
    let line = vertex_line(&t.v2);
    s.append(line.as_str());
    proof {
        assert(s@ =~= spec_triangle_text(t@));
    }
    s
}

impl Smd {
    /// The whole textual export: the version header, the nodes section with
    /// one row per bone, the skeleton section with every stored frame in
    /// order, and one block per triangle.
    #[verifier::rlimit(100)]
    #[verifier::spinoff_prover]
    pub fn export_string(&self) -> (r: String)
        requires
            smd_wf(self@),
            forall|i: int| 0 <= i < self@.bones.len() ==> (#[trigger] self@.bones[i]).id > i32::MIN,
            forall|i: int|
                0 <= i < self@.bones.len() ==> ((#[trigger] self@.bones[i]).parent matches Some(p)
                    ==> p > i32::MIN),
            forall|i: int, j: int|
                0 <= i < self@.frames.len() && 0 <= j < (#[trigger] self@.frames[i]).bones.len()
                    ==> (#[trigger] self@.frames[i].bones[j]).0 > i32::MIN,
            forall|i: int| 0 <= i < self@.frames.len() ==> (#[trigger] self@.frames[i]).time
                > i32::MIN,
            forall|i: int|
                0 <= i < self@.triangles.len() ==> {
                    let t = #[trigger] self@.triangles[i];
                    t.v0.parent_bone > i32::MIN && t.v1.parent_bone > i32::MIN
                        && t.v2.parent_bone > i32::MIN
                },
            forall|i: int, j: int|
                0 <= i < self@.triangles.len() && 0 <= j < (#[trigger] self@.triangles[i]).v0.links.len()
                    ==> ((#[trigger] self@.triangles[i].v0.links[j]).bone > i32::MIN),
            forall|i: int, j: int|
                0 <= i < self@.triangles.len() && 0 <= j < (#[trigger] self@.triangles[i]).v1.links.len()
                    ==> ((#[trigger] self@.triangles[i].v1.links[j]).bone > i32::MIN),
            forall|i: int, j: int|
                0 <= i < self@.triangles.len() && 0 <= j < (#[trigger] self@.triangles[i]).v2.links.len()
                    ==> ((#[trigger] self@.triangles[i].v2.links[j]).bone > i32::MIN),
        ensures
            r@ == spec_export(self@),
    {
        let mut s = String::from_str("version 1\n");
        s.append("nodes\n");
        let ghost bv = bones_view(self.bones@);
        let ghost head = s@;
        let mut i: usize = 0;
        proof {
            assert(bv == self@.bones);
            assert forall|j: int| 0 <= j < bv.len() implies (#[trigger] bv[j]).id > i32::MIN by {
                assert(self@.bones[j].id > i32::MIN);
            }
            assert forall|j: int|
                0 <= j < bv.len() implies ((#[trigger] bv[j]).parent matches Some(p) ==> p
                > i32::MIN) by {
                assert(self@.bones[j].parent matches Some(p) ==> p > i32::MIN);
            }
            assert(spec_bones_text(bv.take(0)) =~= Seq::<char>::empty());
            assert(s@ =~= head + spec_bones_text(bv.take(0)));
        }
        while i < self.bones.len()
            invariant
                i <= self.bones@.len(),
                bv == bones_view(self.bones@),
                bv.len() == self.bones@.len(),
                forall|j: int| 0 <= j < bv.len() ==> bv[j] == self.bones@[j]@,
                forall|j: int| 0 <= j < bv.len() ==> (#[trigger] bv[j]).id > i32::MIN,
                forall|j: int|
                    0 <= j < bv.len() ==> ((#[trigger] bv[j]).parent matches Some(p) ==> p
                        > i32::MIN),
                s@ == head + spec_bones_text(bv.take(i as int)),
            decreases bv.len() - i,
        {
            proof {
                assert(bv.take(i as int + 1).drop_last() =~= bv.take(i as int));
                assert(bv.take(i as int + 1).last() == bv[i as int]);
            }
            let line = bone_line(&self.bones[i]);
            s.append(line.as_str());
            i = i + 1;
            proof {
                assert(s@ =~= head + spec_bones_text(bv.take(i as int)));
            }
        }
        proof {
            assert(bv.take(i as int) =~= bv);
        }
        s.append("end\n");
        s.append("skeleton\n");
        let ghost fv = self.animation_frames.deep_view();
        let ghost head2 = s@;
        let mut i: usize = 0;
        proof {
            assert(fv == self@.frames);
            assert forall|j: int| 0 <= j < fv.len() implies (#[trigger] fv[j]).time > i32::MIN by {
                assert(self@.frames[j].time > i32::MIN);
            }
            assert forall|a: int, b: int|
                0 <= a < fv.len() && 0 <= b < (#[trigger] fv[a]).bones.len() implies (
            #[trigger] fv[a].bones[b]).0 > i32::MIN by {
                assert(self@.frames[a].bones[b].0 > i32::MIN);
            }
            assert forall|a: int, b: int|
                0 <= a < fv.len() && 0 <= b < (#[trigger] fv[a]).bones.len() implies {
                let fb = (#[trigger] fv[a].bones[b]).1;
                v3_wf(fb.translation) && v3_wf(fb.rotation)
            } by {
                assert(self@.frames[a] == fv[a]);
            }
            assert(spec_frames_text(fv.take(0)) =~= Seq::<char>::empty());
            assert(s@ =~= head2 + spec_frames_text(fv.take(0)));
        }
        while i < self.animation_frames.len()
            invariant
                i <= self.animation_frames@.len(),
                fv == self.animation_frames.deep_view(),
                fv.len() == self.animation_frames@.len(),
                forall|j: int| 0 <= j < fv.len() ==> fv[j] == self.animation_frames@[j]@,
                forall|j: int| 0 <= j < fv.len() ==> (#[trigger] fv[j]).time > i32::MIN,
                forall|a: int, b: int|
                    0 <= a < fv.len() && 0 <= b < (#[trigger] fv[a]).bones.len() ==> (
                    #[trigger] fv[a].bones[b]).0 > i32::MIN,
                forall|a: int, b: int|
                    0 <= a < fv.len() && 0 <= b < (#[trigger] fv[a]).bones.len() ==> {
                        let fb = (#[trigger] fv[a].bones[b]).1;
                        v3_wf(fb.translation) && v3_wf(fb.rotation)
                    },
                s@ == head2 + spec_frames_text(fv.take(i as int)),
            decreases fv.len() - i,
        {
            proof {
                assert(fv.take(i as int + 1).drop_last() =~= fv.take(i as int));
                assert(fv.take(i as int + 1).last() == fv[i as int]);
            }
            s.append("time ");
            let t = fmt_i64(self.animation_frames[i].time as i64);
            s.append(t.as_str());
            s.append("\n");
            let ghost fhead = s@;
            let ghost bones = fv[i as int].bones;
            let frame = &self.animation_frames[i];
            let mut k: usize = 0;
            proof {
                assert(spec_frame_bones_text(bones.take(0)) =~= Seq::<char>::empty());
                assert(s@ =~= fhead + spec_frame_bones_text(bones.take(0)));
            }
            while k < frame.bones.len()
                invariant
                    k <= frame.bones@.len(),
                    bones == frame.bones@,
                    forall|b: int| 0 <= b < bones.len() ==> (#[trigger] bones[b]).0 > i32::MIN,
                    forall|b: int|
                        0 <= b < bones.len() ==> {
                            let fb = (#[trigger] bones[b]).1;
                            v3_wf(fb.translation) && v3_wf(fb.rotation)
                        },
                    s@ == fhead + spec_frame_bones_text(bones.take(k as int)),
                decreases frame.bones@.len() - k,
            {
                proof {
                    assert(bones.take(k as int + 1).drop_last() =~= bones.take(k as int));
                    assert(bones.take(k as int + 1).last() == bones[k as int]);
                }
                let line = frame_bone_line(frame.bones[k].0, &frame.bones[k].1);
                s.append(line.as_str());
                k = k + 1;
                proof {
                    assert(s@ =~= fhead + spec_frame_bones_text(bones.take(k as int)));
                }
            }
            proof {
                assert(bones.take(k as int) =~= bones);
                assert(s@ =~= head2 + spec_frames_text(fv.take(i as int + 1)));
            }
            i = i + 1;
        }
        proof {
            assert(fv.take(i as int) =~= fv);
        }
        s.append("end\n");
        s.append("triangles\n");
        let ghost tv = self.triangles.deep_view();
        let ghost head3 = s@;
        let mut i: usize = 0;
        proof {
            assert(tv == self@.triangles);
            assert forall|j: int|
                0 <= j < tv.len() implies {
                let t = #[trigger] tv[j];
                vertex_wf(t.v0) && vertex_wf(t.v1) && vertex_wf(t.v2)
            } by {
                assert(self@.triangles[j] == tv[j]);
            }
            assert forall|j: int|
                0 <= j < tv.len() implies {
                let t = #[trigger] tv[j];
                t.v0.parent_bone > i32::MIN && t.v1.parent_bone > i32::MIN && t.v2.parent_bone
                    > i32::MIN
            } by {
                assert(self@.triangles[j] == tv[j]);
            }
            assert forall|a: int, b: int|
                0 <= a < tv.len() && 0 <= b < (#[trigger] tv[a]).v0.links.len() implies ((
            #[trigger] tv[a].v0.links[b]).bone > i32::MIN) by {
                assert(self@.triangles[a] == tv[a]);
            }
            assert forall|a: int, b: int|
                0 <= a < tv.len() && 0 <= b < (#[trigger] tv[a]).v1.links.len() implies ((
            #[trigger] tv[a].v1.links[b]).bone > i32::MIN) by {
                assert(self@.triangles[a] == tv[a]);
            }
            assert forall|a: int, b: int|
                0 <= a < tv.len() && 0 <= b < (#[trigger] tv[a]).v2.links.len() implies ((
            #[trigger] tv[a].v2.links[b]).bone > i32::MIN) by {
                assert(self@.triangles[a] == tv[a]);
            }
            assert(spec_triangles_text(tv.take(0)) =~= Seq::<char>::empty());
            assert(s@ =~= head3 + spec_triangles_text(tv.take(0)));
        }
        while i < self.triangles.len()
            invariant
                i <= self.triangles@.len(),
                tv == self.triangles.deep_view(),
                tv.len() == self.triangles@.len(),
                forall|j: int| 0 <= j < tv.len() ==> tv[j] == self.triangles@[j]@,
                forall|j: int|
                    0 <= j < tv.len() ==> {
                        let t = #[trigger] tv[j];
                        vertex_wf(t.v0) && vertex_wf(t.v1) && vertex_wf(t.v2)
                    },
                forall|j: int|
                    0 <= j < tv.len() ==> {
                        let t = #[trigger] tv[j];
                        t.v0.parent_bone > i32::MIN && t.v1.parent_bone > i32::MIN
                            && t.v2.parent_bone > i32::MIN
                    },
                forall|a: int, b: int|
                    0 <= a < tv.len() && 0 <= b < (#[trigger] tv[a]).v0.links.len() ==> ((
                    #[trigger] tv[a].v0.links[b]).bone > i32::MIN),
                forall|a: int, b: int|
                    0 <= a < tv.len() && 0 <= b < (#[trigger] tv[a]).v1.links.len() ==> ((
                    #[trigger] tv[a].v1.links[b]).bone > i32::MIN),
                forall|a: int, b: int|
                    0 <= a < tv.len() && 0 <= b < (#[trigger] tv[a]).v2.links.len() ==> ((
                    #[trigger] tv[a].v2.links[b]).bone > i32::MIN),
                s@ == head3 + spec_triangles_text(tv.take(i as int)),
            decreases tv.len() - i,
        {
            proof {
                assert(tv.take(i as int + 1).drop_last() =~= tv.take(i as int));
                assert(tv.take(i as int + 1).last() == tv[i as int]);
            }
            let t = &self.triangles[i];
            proof {
                assert(t@ == tv[i as int]);
                assert(t.v0@ == tv[i as int].v0);
                assert(t.v1@ == tv[i as int].v1);
                assert(t.v2@ == tv[i as int].v2);
                assert forall|j: int| 0 <= j < t.v0.links@.len() implies (
                #[trigger] t.v0.links@[j]).bone > i32::MIN by {
                    assert(tv[i as int].v0.links[j] == t.v0.links@[j]);
                }
                assert forall|j: int| 0 <= j < t.v1.links@.len() implies (
                #[trigger] t.v1.links@[j]).bone > i32::MIN by {
                    assert(tv[i as int].v1.links[j] == t.v1.links@[j]);
                }
                assert forall|j: int| 0 <= j < t.v2.links@.len() implies (
                #[trigger] t.v2.links@[j]).bone > i32::MIN by {
                    assert(tv[i as int].v2.links[j] == t.v2.links@[j]);
                }
            }
            let block = triangle_text(t);
            s.append(block.as_str());
            i = i + 1;
            proof {
                assert(s@ =~= head3 + spec_triangles_text(tv.take(i as int)));
            }
        }
        proof {
            assert(tv.take(i as int) =~= tv);
        }
        s.append("end\n");
        proof {
            assert(s@ =~= spec_export(self@));
        }
        s
    }
}

} // verus!
