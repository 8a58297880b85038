//! Named property lists: per-object ordered stores of typed scalar values.

use vstd::prelude::*;

use crate::error::Error;
use crate::fixed::{f32_fx, f64_fx, fx_from_f32_bits, fx_from_f64_bits, V3};
use crate::node::Node;
use crate::value::{PropValue, ValueView};

verus! {

/// Specification view of a property: its name and its ordered payloads.
pub struct PropertyView {
    pub name: Seq<char>,
    pub values: Seq<ValueView>,
}

/// One named property: an ordered list of typed scalar values.
#[derive(Debug, Clone)]
pub struct Property {
    pub name: String,
    pub values: Vec<PropValue>,
}

impl View for Property {
    type V = PropertyView;

    open spec fn view(&self) -> PropertyView {
        PropertyView { name: self.name@, values: self.values.deep_view() }
    }
}

/// An ordered property store. Order is declaration order, which the curve
/// evaluator's propagation step depends on, so a plain ordered list is used
/// rather than a hashed map.
pub type Properties = Vec<Property>;

/// The view of a whole property store.
pub open spec fn props_view(ps: Seq<Property>) -> Seq<PropertyView> {
    ps.map_values(|p: Property| p@)
}

/// The index of the first property named `name`, if any.
pub open spec fn spec_prop_index(ps: Seq<PropertyView>, name: Seq<char>) -> Option<int>
    decreases ps.len(),
{
    if ps.len() == 0 {
        None
    } else if ps[0].name == name {
        Some(0int)
    } else {
        match spec_prop_index(ps.drop_first(), name) {
            Some(i) => Some(i + 1),
            None => None,
        }
    }
}

/// The first property named `name`, if any.
pub open spec fn spec_prop_get(ps: Seq<PropertyView>, name: Seq<char>) -> Option<PropertyView> {
    match spec_prop_index(ps, name) {
        Some(i) => Some(ps[i]),
        None => None,
    }
}

/// What `spec_prop_index` returns is a well-formed first match.
pub proof fn lemma_prop_index_props(ps: Seq<PropertyView>, name: Seq<char>)
    ensures
        match spec_prop_index(ps, name) {
            Some(i) => {
                &&& 0 <= i < ps.len()
                &&& ps[i].name == name
                &&& forall|j: int| 0 <= j < i ==> ps[j].name != name
            },
            None => forall|j: int| 0 <= j < ps.len() ==> ps[j].name != name,
        },
    decreases ps.len(),
{
    if ps.len() > 0 && ps[0].name != name {
        let d = ps.drop_first();
        lemma_prop_index_props(d, name);
        match spec_prop_index(d, name) {
            Some(i) => {
                assert(spec_prop_index(ps, name) == Some(i + 1));
                assert(d[i] == ps[i + 1]);
                assert forall|j: int| 0 <= j < i + 1 implies ps[j].name != name by {
                    if j > 0 {
                        assert(ps[j] == d[j - 1]);
                    }
                }
            },
            None => {
                assert forall|j: int| 0 <= j < ps.len() implies ps[j].name != name by {
                    if j > 0 {
                        assert(ps[j] == d[j - 1]);
                    }
                }
            },
        }
    }
}

/// Looks up the first property with the given name and returns its index.
pub fn prop_index(ps: &Vec<Property>, name: &String) -> (r: Option<usize>)
    ensures
        match r {
            Some(i) => spec_prop_index(props_view(ps@), name@) == Some(i as int),
            None => spec_prop_index(props_view(ps@), name@) is None,
        },
{
    let ghost pv = props_view(ps@);
    let mut i: usize = 0;
    proof {
        assert(pv.skip(0) =~= pv);
    }
    while i < ps.len()
        invariant
            i <= ps.len(),
            pv == props_view(ps@),
            pv.len() == ps@.len(),
            forall|j: int| 0 <= j < ps@.len() ==> pv[j] == ps@[j]@,
            forall|j: int| 0 <= j < i ==> pv[j].name != name@,
            spec_prop_index(pv, name@) == match spec_prop_index(pv.skip(i as int), name@) {
                Some(k) => Some(k + i),
                None => None::<int>,
            },
        decreases ps.len() - i,
    {
        proof {
            lemma_prop_index_step(pv, name@, i as int);
        }
        if crate::node::str_eq(&ps[i].name, name.as_str()) {
            return Some(i);
        }
        i = i + 1;
    }
    proof {
        assert(pv.skip(i as int) =~= Seq::<PropertyView>::empty());
    }
    None
}

/// One step of the suffix recursion behind `spec_prop_index`.
pub proof fn lemma_prop_index_step(ps: Seq<PropertyView>, name: Seq<char>, i: int)
    requires
        0 <= i < ps.len(),
    ensures
        spec_prop_index(ps.skip(i), name) == if ps[i].name == name {
            Some(0int)
        } else {
            match spec_prop_index(ps.skip(i + 1), name) {
                Some(k) => Some(k + 1),
                None => None::<int>,
            }
        },
{
    assert(ps.skip(i).len() > 0);
    assert(ps.skip(i)[0] == ps[i]);
    assert(ps.skip(i).drop_first() =~= ps.skip(i + 1));
}

impl Property {
    /// Reads one property definition out of a generic `"P"` node: the first
    /// payload is the property name, and everything from the fifth payload on
    /// is its value list.
    pub fn from_node(node: &Node) -> (r: Result<Property, Error>)
        ensures
            match r {
                Ok(p) => spec_property_from_node(*node) == PropOutcome::Found(p@),
                Err(Error::WrongNode(e, a)) => e@ == "P"@ && a@ == node.name@
                    && spec_property_from_node(*node) is BadNode,
                Err(Error::WrongNodeLayout(_)) => spec_property_from_node(*node) is BadLayout,
                Err(_) => false,
            },
    {
        if !crate::node::str_eq(&node.name, "P") {
            return Err(Error::WrongNode(String::from_str("P"), node.name.clone()));
        }
        if node.properties.len() < 3 {
            return Err(Error::WrongNodeLayout(String::from_str(
                "Minimum of 3 properties required in Property node",
            )));
        }
        let name = match node.properties[0].get_string() {
            Some(s) => s.clone(),
            None => {
                return Err(Error::WrongNodeLayout(String::from_str(
                    "Property node must carry its name first",
                )));
            },
        };
        let mut values: Vec<PropValue> = Vec::new();
        let mut i: usize = if node.properties.len() >= 4 { 4 } else { node.properties.len() };
        let ghost start = i as int;
        proof {
            assert(values.deep_view() =~= node.properties.deep_view().subrange(start, start));
        }
        while i < node.properties.len()
            invariant
                0 <= start <= i <= node.properties.len(),
                values.deep_view() == node.properties.deep_view().subrange(start, i as int),
            decreases node.properties.len() - i,
        {
            let d = node.properties[i].duplicate();
            let ghost ovals = values@;
            let ghost odv = values.deep_view();
            values.push(d);
            proof {
                let dv = node.properties.deep_view();
                assert(values@ == ovals.push(d));
                assert(odv.len() == ovals.len());
                assert(odv.len() == i as int - start);
                assert forall|j: int| 0 <= j < values@.len() implies values.deep_view()[j]
                    == dv.subrange(start, i as int + 1)[j] by {
                    assert(dv.subrange(start, i as int + 1)[j] == dv[start + j]);
                    if j < i as int - start {
                        assert(values@[j] == ovals[j]);
                        assert(values.deep_view()[j] == ovals[j].deep_view());
                        assert(odv[j] == ovals[j].deep_view());
                        assert(odv[j] == dv.subrange(start, i as int)[j]);
                        assert(dv.subrange(start, i as int)[j] == dv[start + j]);
                    } else {
                        assert(values@[j] == d);
                        assert(values.deep_view()[j] == d.deep_view());
                    }
                }
                assert(values.deep_view() =~= dv.subrange(start, i as int + 1));
            }
            i = i + 1;
        }
        proof {
            assert(values.deep_view() =~= node.properties.deep_view().skip(start));
        }
        Ok(Property { name, values })
    }

    /// Reads the first three payloads as one coordinate triple.
    pub fn to_vector3(&self) -> (r: Option<V3>)
        ensures
            r == spec_to_vector3(self@.values),
    {
        if self.values.len() < 3 {
            return None;
        }
        let x = match scalar_fx(&self.values[0]) {
            Some(x) => x,
            None => {
                return None;
            },
        };
        let y = match scalar_fx(&self.values[1]) {
            Some(y) => y,
            None => {
                return None;
            },
        };
        let z = match scalar_fx(&self.values[2]) {
            Some(z) => z,
            None => {
                return None;
            },
        };
        Some(V3 { x, y, z })
    }
}

/// How reading one property definition out of a node ends.
pub enum PropOutcome {
    Found(PropertyView),
    BadNode,
    BadLayout,
}

/// The property read from a generic `"P"` node: the first payload is the
/// property name, and everything from the fifth payload on is its value
/// list.
pub open spec fn spec_property_from_node(node: Node) -> PropOutcome {
    if node.name@ != "P"@ {
        PropOutcome::BadNode
    } else if node.properties@.len() < 3 {
        PropOutcome::BadLayout
    } else {
        match node.properties@[0]@ {
            ValueView::Str(s) => PropOutcome::Found(
                PropertyView {
                    name: s,
                    values: node.properties.deep_view().skip(
                        if node.properties@.len() >= 4 {
                            4int
                        } else {
                            node.properties@.len() as int
                        },
                    ),
                },
            ),
            _ => PropOutcome::BadLayout,
        }
    }
}

/// The exact coordinate reading of one scalar payload: either floating-point
/// width decodes, nothing else does.
pub open spec fn spec_scalar_fx(v: ValueView) -> Option<int> {
    match v {
        ValueView::F32(b) => Some(f32_fx(b)),
        ValueView::F64(b) => Some(f64_fx(b)),
        _ => None,
    }
}

/// The coordinate triple read from the first three payloads of a property.
pub open spec fn spec_to_vector3(values: Seq<ValueView>) -> Option<V3> {
    if values.len() < 3 {
        None
    } else {
        match (spec_scalar_fx(values[0]), spec_scalar_fx(values[1]), spec_scalar_fx(values[2])) {
            (Some(x), Some(y), Some(z)) => Some(V3 { x: x as i64, y: y as i64, z: z as i64 }),
            _ => None,
        }
    }
}

/// Coordinate readings land in the coordinate range.
pub proof fn lemma_scalar_fx_wf(v: ValueView)
    ensures
        spec_scalar_fx(v) matches Some(x) ==> crate::fixed::fx_wf(x),
{
    match v {
        ValueView::F32(b) => crate::fixed::lemma_f32_fx_wf(b),
        ValueView::F64(b) => crate::fixed::lemma_f64_fx_wf(b),
        _ => {},
    }
}

/// Reads one scalar payload as a coordinate.
fn scalar_fx(v: &PropValue) -> (r: Option<i64>)
    ensures
        match r {
            Some(x) => spec_scalar_fx(v@) == Some(x as int),
            None => spec_scalar_fx(v@) is None,
        },
{
    match v {
        PropValue::F32(b) => Some(fx_from_f32_bits(*b)),
        PropValue::F64(b) => Some(fx_from_f64_bits(*b)),
        _ => None,
    }
}

} // verus!
