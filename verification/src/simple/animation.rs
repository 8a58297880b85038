//! Animation curves: one baked scalar value per frame.

use vstd::prelude::*;

use crate::error::Error;
use crate::node::{spec_find_child, Node};
use crate::value::{PropValue, ValueView};

verus! {

/// Specification view of an animation curve.
pub struct CurveView {
    pub frames: i32,
    pub values: Seq<ValueView>,
}

/// One baked animation curve: a frame count and one scalar value per frame.
#[derive(Debug, Clone)]
pub struct AnimationCurve {
    pub frames: i32,
    pub values: Vec<PropValue>,
}

impl View for AnimationCurve {
    type V = CurveView;

    open spec fn view(&self) -> CurveView {
        CurveView { frames: self.frames, values: self.values.deep_view() }
    }
}

/// The curve read from a curve node's `"KeyValueFloat"` child: every key
/// value is taken to be one frame, which is exact for baked animation.
pub open spec fn spec_curve_from_node(node: Node) -> Option<CurveView> {
    match spec_find_child(node.children@, "KeyValueFloat"@) {
        None => None,
        Some(kn) => if kn.properties@.len() == 0 {
            None
        } else {
            match kn.properties@[0]@ {
                ValueView::VecF32(b) => if b.len() <= i32::MAX {
                    Some(
                        CurveView {
                            frames: b.len() as i32,
                            values: b.map_values(|x: u32| ValueView::F32(x)),
                        },
                    )
                } else {
                    None
                },
                ValueView::VecF64(b) => if b.len() <= i32::MAX {
                    Some(
                        CurveView {
                            frames: b.len() as i32,
                            values: b.map_values(|x: u64| ValueView::F64(x)),
                        },
                    )
                } else {
                    None
                },
                _ => None,
            }
        },
    }
}

impl AnimationCurve {
    /// Reads a curve out of an `"AnimationCurve"` node.
    pub fn from_node(node: &Node) -> (r: Result<AnimationCurve, Error>)
        ensures
            match r {
                Ok(c) => spec_curve_from_node(*node) == Some(c@),
                Err(Error::WrongNodeLayout(_)) => spec_curve_from_node(*node) is None,
                Err(_) => false,
            },
    {
        let kn = match node.find_child("KeyValueFloat") {
            Some(n) => n,
            None => {
                return Err(Error::WrongNodeLayout(String::from_str(
                    "animation curve has no key values",
                )));
            },
        };
        if kn.properties.len() == 0 {
            return Err(Error::WrongNodeLayout(String::from_str(
                "key value list carries no value",
            )));
        }
        match &kn.properties[0] {
            PropValue::VecF32(b) => {
                if b.len() > i32::MAX as usize {
                    return Err(Error::WrongNodeLayout(String::from_str(
                        "key value list is too long",
                    )));
                }
                let mut values: Vec<PropValue> = Vec::new();
                let mut i: usize = 0;
                while i < b.len()
                    invariant
                        i <= b@.len(),
                        values@.len() == i,
                        forall|j: int|
                            0 <= j < i ==> #[trigger] values@[j] == PropValue::F32(b@[j]),
                    decreases b@.len() - i,
                {
                    values.push(PropValue::F32(b[i]));
                    i = i + 1;
                }
                proof {
                    assert(values.deep_view() =~= b@.map_values(|x: u32| ValueView::F32(x)));
                }
                Ok(AnimationCurve { frames: b.len() as i32, values })
            },
            PropValue::VecF64(b) => {
                if b.len() > i32::MAX as usize {
                    return Err(Error::WrongNodeLayout(String::from_str(
                        "key value list is too long",
                    )));
                }
                let mut values: Vec<PropValue> = Vec::new();
                let mut i: usize = 0;
                while i < b.len()
                    invariant
                        i <= b@.len(),
                        values@.len() == i,
                        forall|j: int|
                            0 <= j < i ==> #[trigger] values@[j] == PropValue::F64(b@[j]),
                    decreases b@.len() - i,
                {
                    values.push(PropValue::F64(b[i]));
                    i = i + 1;
                }
                proof {
                    assert(values.deep_view() =~= b@.map_values(|x: u64| ValueView::F64(x)));
                }
                Ok(AnimationCurve { frames: b.len() as i32, values })
            },
            _ => Err(Error::WrongNodeLayout(String::from_str(
                "key value list is not a numeric array",
            ))),
        }
    }
}

} // verus!
