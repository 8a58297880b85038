//! Model objects and the transform-related properties read off them.

use vstd::prelude::*;

use crate::fixed::{FX_ONE, V3};
use crate::node::Node;
use crate::simple::properties::{
    prop_index, props_view, spec_prop_get, spec_to_vector3, Properties, PropertyView,
};

verus! {

/// A model (transform) object. It carries no data of its own: every
/// transform input lives in the object's property store.
#[derive(Debug, Clone, Copy, PartialEq, Eq, Structural, Default)]
pub struct Model {}

impl Model {
    /// Reads a model out of a `"Model"` node.
    pub fn from_node(_node: &Node) -> (r: Model) {
        Model {  }
    }
}

/// The transform inputs of one model, with every absent or unreadable
/// property replaced by its default: identity scale, zero everything else.
#[derive(Debug, Clone, Copy, PartialEq, Eq, Structural)]
pub struct ModelProperties {
    pub translation: V3,
    pub pre_rotation: V3,
    pub rotation: V3,
    pub post_rotation: V3,
    pub scale: V3,
    pub rotation_offset: V3,
    pub rotation_pivot: V3,
    pub scale_offset: V3,
    pub scale_pivot: V3,
}

/// The coordinate triple of the named property, or the default where the
/// property is absent or does not read as a triple.
pub open spec fn spec_vec3_prop(ps: Seq<PropertyView>, name: Seq<char>, default: V3) -> V3 {
    match spec_prop_get(ps, name) {
        Some(p) => match spec_to_vector3(p.values) {
            Some(v) => v,
            None => default,
        },
        None => default,
    }
}

/// The zero triple.
pub open spec fn v3_zero() -> V3 {
    V3 { x: 0, y: 0, z: 0 }
}

/// The identity scale triple.
pub open spec fn v3_one() -> V3 {
    V3 { x: FX_ONE, y: FX_ONE, z: FX_ONE }
}

/// Reads the named property as a coordinate triple, falling back to a
/// default.
fn vec3_prop(ps: &Properties, name: &str, default: V3) -> (r: V3)
    ensures
        r == spec_vec3_prop(props_view(ps@), name@, default),
{
    let key = String::from_str(name);
    match prop_index(ps, &key) {
        Some(i) => {
            proof {
                crate::simple::properties::lemma_prop_index_props(props_view(ps@), name@);
            }
            match ps[i].to_vector3() {
                Some(v) => v,
                None => default,
            }
        },
        None => default,
    }
}

impl ModelProperties {
    /// Collects the transform inputs out of a model's property store,
    /// defaulting each absent field.
    pub fn from_generic(properties: &Properties) -> (r: ModelProperties)
        ensures
            r.translation == spec_vec3_prop(props_view(properties@), "Lcl Translation"@, v3_zero()),
            r.pre_rotation == spec_vec3_prop(props_view(properties@), "PreRotation"@, v3_zero()),
            r.rotation == spec_vec3_prop(props_view(properties@), "Lcl Rotation"@, v3_zero()),
            r.post_rotation == spec_vec3_prop(props_view(properties@), "PostRotation"@, v3_zero()),
            r.scale == spec_vec3_prop(props_view(properties@), "Lcl Scaling"@, v3_one()),
            r.rotation_offset == spec_vec3_prop(
                props_view(properties@),
                "RotationOffset"@,
                v3_zero(),
            ),
            r.rotation_pivot == spec_vec3_prop(
                props_view(properties@),
                "RotationPivot"@,
                v3_zero(),
            ),
            r.scale_offset == spec_vec3_prop(props_view(properties@), "ScalingOffset"@, v3_zero()),
            r.scale_pivot == spec_vec3_prop(props_view(properties@), "ScalingPivot"@, v3_zero()),
    {
        let zero = V3 { x: 0, y: 0, z: 0 };
        let one = V3 { x: FX_ONE, y: FX_ONE, z: FX_ONE };
        ModelProperties {
            translation: vec3_prop(properties, "Lcl Translation", zero),
            pre_rotation: vec3_prop(properties, "PreRotation", zero),
            rotation: vec3_prop(properties, "Lcl Rotation", zero),
            post_rotation: vec3_prop(properties, "PostRotation", zero),
            scale: vec3_prop(properties, "Lcl Scaling", one),
            rotation_offset: vec3_prop(properties, "RotationOffset", zero),
            rotation_pivot: vec3_prop(properties, "RotationPivot", zero),
            scale_offset: vec3_prop(properties, "ScalingOffset", zero),
            scale_pivot: vec3_prop(properties, "ScalingPivot", zero),
        }
    }
}

} // verus!
