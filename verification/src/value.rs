//! Typed scalar payloads of the generic node tree.

use vstd::prelude::*;

verus! {

/// Specification-level shape of a scalar payload: arrays and text are viewed
/// as mathematical sequences.
pub enum ValueView {
    Bool(bool),
    I16(i16),
    I32(i32),
    I64(i64),
    F32(u32),
    F64(u64),
    VecBool(Seq<bool>),
    VecI32(Seq<i32>),
    VecI64(Seq<i64>),
    VecF32(Seq<u32>),
    VecF64(Seq<u64>),
    Str(Seq<char>),
    Binary(Seq<u8>),
}

/// One typed scalar (or homogeneous array) payload of a generic node.
///
/// 32- and 64-bit floating-point payloads are carried as their IEEE 754 bit
/// patterns. The object graph and the curve evaluator only move payloads
/// around, so nothing is lost by this; the coordinate arithmetic of the
/// transform resolver gives the patterns an explicit exact interpretation
/// (see the `fixed` module).
#[derive(Debug, Clone)]
pub enum PropValue {
    Bool(bool),
    I16(i16),
    I32(i32),
    I64(i64),
    F32(u32),
    F64(u64),
    VecBool(Vec<bool>),
    VecI32(Vec<i32>),
    VecI64(Vec<i64>),
    VecF32(Vec<u32>),
    VecF64(Vec<u64>),
    Str(String),
    Binary(Vec<u8>),
}

impl DeepView for PropValue {
    type V = ValueView;

    open spec fn deep_view(&self) -> ValueView {
        self.view()
    }
}

impl View for PropValue {
    type V = ValueView;

    open spec fn view(&self) -> ValueView {
        match self {
            PropValue::Bool(v) => ValueView::Bool(*v),
            PropValue::I16(v) => ValueView::I16(*v),
            PropValue::I32(v) => ValueView::I32(*v),
            PropValue::I64(v) => ValueView::I64(*v),
            PropValue::F32(v) => ValueView::F32(*v),
            PropValue::F64(v) => ValueView::F64(*v),
            PropValue::VecBool(v) => ValueView::VecBool(v@),
            PropValue::VecI32(v) => ValueView::VecI32(v@),
            PropValue::VecI64(v) => ValueView::VecI64(v@),
            PropValue::VecF32(v) => ValueView::VecF32(v@),
            PropValue::VecF64(v) => ValueView::VecF64(v@),
            PropValue::Str(v) => ValueView::Str(v@),
            PropValue::Binary(v) => ValueView::Binary(v@),
        }
    }
}

/// What `get_i64` returns: booleans and narrower integers widen, everything
/// else is refused.
pub open spec fn spec_get_i64(v: ValueView) -> Option<i64> {
    match v {
        ValueView::Bool(b) => Some(if b { 1i64 } else { 0i64 }),
        ValueView::I16(n) => Some(n as i64),
        ValueView::I32(n) => Some(n as i64),
        ValueView::I64(n) => Some(n),
        _ => None,
    }
}

/// What `get_vec_i32` returns: boolean arrays widen to 0/1, everything else
/// is refused.
pub open spec fn spec_get_vec_i32(v: ValueView) -> Option<Seq<i32>> {
    match v {
        ValueView::VecBool(b) => Some(Seq::new(b.len(), |i: int| if b[i] { 1i32 } else { 0i32 })),
        ValueView::VecI32(s) => Some(s),
        _ => None,
    }
}

/// What `get_i32` returns: booleans and 16-bit integers widen, everything
/// else is refused.
pub open spec fn spec_get_i32(v: ValueView) -> Option<i32> {
    match v {
        ValueView::Bool(b) => Some(if b { 1i32 } else { 0i32 }),
        ValueView::I16(n) => Some(n as i32),
        ValueView::I32(n) => Some(n),
        _ => None,
    }
}

impl PropValue {
    /// A 64-bit integer reading of the payload, if it has one.
    pub fn get_i64(&self) -> (r: Option<i64>)
        ensures
            r == spec_get_i64(self@),
    {
        match self {
            PropValue::Bool(b) => Some(if *b { 1 } else { 0 }),
            PropValue::I16(n) => Some(*n as i64),
            PropValue::I32(n) => Some(*n as i64),
            PropValue::I64(n) => Some(*n),
            _ => None,
        }
    }

    /// A 32-bit integer reading of the payload, if it has one.
    pub fn get_i32(&self) -> (r: Option<i32>)
        ensures
            r == spec_get_i32(self@),
    {
        match self {
            PropValue::Bool(b) => Some(if *b { 1 } else { 0 }),
            PropValue::I16(n) => Some(*n as i32),
            PropValue::I32(n) => Some(*n),
            _ => None,
        }
    }

    /// The text payload, if the value is one.
    pub fn get_string(&self) -> (r: Option<&String>)
        ensures
            match self@ {
                ValueView::Str(s) => r is Some && r->0@ == s,
                _ => r is None,
            },
    {
        match self {
            PropValue::Str(s) => Some(s),
            _ => None,
        }
    }

    /// The 32-bit signed array reading of the payload: boolean arrays widen
    /// to 0/1, everything else is refused.
    pub fn get_vec_i32(&self) -> (r: Option<Vec<i32>>)
        ensures
            match r {
                Some(out) => spec_get_vec_i32(self@) == Some(out@),
                None => spec_get_vec_i32(self@) is None,
            },
    {
        match self {
            PropValue::VecBool(b) => {
                let mut out: Vec<i32> = Vec::new();
                let mut i: usize = 0;
                while i < b.len()
                    invariant
                        i <= b.len(),
                        out@ == Seq::new(i as nat, |j: int| if b@[j] { 1i32 } else { 0i32 }),
                    decreases b.len() - i,
                {
                    out.push(if b[i] { 1 } else { 0 });
                    i = i + 1;
                    proof {
                        assert(out@ =~= Seq::new(i as nat, |j: int| if b@[j] { 1i32 } else { 0i32 }));
                    }
                }
                proof {
                    assert(out@ =~= Seq::new(b@.len(), |j: int| if b@[j] { 1i32 } else { 0i32 }));
                }
                Some(out)
            },
            PropValue::VecI32(v) => {
                let c = v.clone();
                proof {
                    assert(c@ =~= v@);
                }
                Some(c)
            },
            _ => None,
        }
    }

    /// A copy of the payload that is known to carry the same view.
    pub fn duplicate(&self) -> (r: PropValue)
        ensures
            r@ == self@,
    {
        match self {
            PropValue::Bool(v) => PropValue::Bool(*v),
            PropValue::I16(v) => PropValue::I16(*v),
            PropValue::I32(v) => PropValue::I32(*v),
            PropValue::I64(v) => PropValue::I64(*v),
            PropValue::F32(v) => PropValue::F32(*v),
            PropValue::F64(v) => PropValue::F64(*v),
            PropValue::VecBool(v) => {
                let c = v.clone();
                proof {
                    assert(c@ =~= v@);
                }
                PropValue::VecBool(c)
            },
            PropValue::VecI32(v) => {
                let c = v.clone();
                proof {
                    assert(c@ =~= v@);
                }
                PropValue::VecI32(c)
            },
            PropValue::VecI64(v) => {
                let c = v.clone();
                proof {
                    assert(c@ =~= v@);
                }
                PropValue::VecI64(c)
            },
            PropValue::VecF32(v) => {
                let c = v.clone();
                proof {
                    assert(c@ =~= v@);
                }
                PropValue::VecF32(c)
            },
            PropValue::VecF64(v) => {
                let c = v.clone();
                proof {
                    assert(c@ =~= v@);
                }
                PropValue::VecF64(c)
            },
            PropValue::Str(v) => PropValue::Str(v.clone()),
            PropValue::Binary(v) => {
                let c = v.clone();
                proof {
                    assert(c@ =~= v@);
                }
                PropValue::Binary(c)
            },
        }
    }
}

} // verus!
