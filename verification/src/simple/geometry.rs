//! Mesh geometry: vertex data, polygon index decoding, layer-mapping
//! flattening and triangulation.

use vstd::prelude::*;

use crate::error::Error;
use crate::fixed::{f32_fx, f64_fx, fx_from_f32_bits, fx_from_f64_bits, V2, V3};
use crate::node::{spec_find_child, Node};
use crate::value::{PropValue, ValueView};

verus! {

/// Specification view of a mesh.
pub struct GeometryView {
    pub vertices: Seq<V3>,
    pub polygons: Seq<Seq<u32>>,
    pub normals: Seq<V3>,
    pub uvs: Seq<V2>,
}

/// Mesh data of a geometry object: vertex positions, polygon index lists
/// (already decoded), and per-polygon-vertex normals and texture
/// coordinates.
#[derive(Debug)]
pub struct Geometry {
    pub vertices: Vec<V3>,
    pub polygons: Vec<Vec<u32>>,
    pub normals: Vec<V3>,
    pub uvs: Vec<V2>,
}

impl View for Geometry {
    type V = GeometryView;

    open spec fn view(&self) -> GeometryView {
        GeometryView {
            vertices: self.vertices@,
            polygons: self.polygons.deep_view(),
            normals: self.normals@,
            uvs: self.uvs@,
        }
    }
}

/// One corner of an exported triangle.
#[derive(Debug, Clone, Copy, PartialEq, Eq, Structural)]
pub struct TriVert {
    pub position: V3,
    pub normal: V3,
    pub uv: V2,
}

/// One triangle of an exported mesh.
#[derive(Debug, Clone, Copy, PartialEq, Eq, Structural)]
pub struct Tri {
    pub v0: TriVert,
    pub v1: TriVert,
    pub v2: TriVert,
}

/// How a parse stage of the mesh reader can end.
pub enum GeomOutcome<T> {
    Found(T),
    BadLayout,
    BadMapping,
}

/// An index entry as stored in the file: negative values mark the last index
/// of a polygon and carry the true index as `-v - 1`.
pub open spec fn spec_decode_index(v: i32) -> u32 {
    if v < 0 {
        (-(v as int) - 1) as u32
    } else {
        v as u32
    }
}

/// Splits a raw index list into polygons at its negated entries. `cur` is
/// the polygon being accumulated; a list that ends mid-polygon is refused.
pub open spec fn spec_polys(raw: Seq<i32>, cur: Seq<u32>) -> Option<Seq<Seq<u32>>>
    decreases raw.len(),
{
    if raw.len() == 0 {
        if cur.len() == 0 {
            Some(Seq::empty())
        } else {
            None
        }
    } else {
        let ix = spec_decode_index(raw[0]);
        if raw[0] < 0 {
            match spec_polys(raw.drop_first(), Seq::empty()) {
                Some(rest) => Some(seq![cur.push(ix)] + rest),
                None => None,
            }
        } else {
            spec_polys(raw.drop_first(), cur.push(ix))
        }
    }
}

/// One step of the suffix recursion behind `spec_polys`.
proof fn lemma_polys_step(raw: Seq<i32>, cur: Seq<u32>, i: int)
    requires
        0 <= i < raw.len(),
    ensures
        spec_polys(raw.skip(i), cur) == {
            let ix = spec_decode_index(raw[i]);
            if raw[i] < 0 {
                match spec_polys(raw.skip(i + 1), Seq::empty()) {
                    Some(rest) => Some(seq![cur.push(ix)] + rest),
                    None => None,
                }
            } else {
                spec_polys(raw.skip(i + 1), cur.push(ix))
            }
        },
{
    assert(raw.skip(i).len() > 0);
    assert(raw.skip(i)[0] == raw[i]);
    assert(raw.skip(i).drop_first() =~= raw.skip(i + 1));
}

/// The flat decoded index list.
pub open spec fn spec_decoded_indices(raw: Seq<i32>) -> Seq<i32> {
    raw.map_values(|v: i32| spec_decode_index(v) as i32)
}

/// Decodes a raw polygon-vertex index list into its polygons and its flat
/// decoded index list.
fn decode_polygons(raw: &Vec<i32>) -> (r: Result<(Vec<Vec<u32>>, Vec<i32>), Error>)
    ensures
        match r {
            Ok((polys, idx)) => {
                &&& spec_polys(raw@, Seq::empty()) == Some(polys.deep_view())
                &&& idx@ == spec_decoded_indices(raw@)
            },
            Err(Error::WrongNodeLayout(_)) => spec_polys(raw@, Seq::empty()) is None,
            Err(_) => false,
        },
{
    let mut polys: Vec<Vec<u32>> = Vec::new();
    let mut cur: Vec<u32> = Vec::new();
    let mut idx: Vec<i32> = Vec::new();
    let mut i: usize = 0;
    proof {
        assert(raw@.skip(0) =~= raw@);
        assert(idx@ =~= spec_decoded_indices(raw@.take(0)));
    }
    while i < raw.len()
        invariant
            i <= raw.len(),
            idx@ == spec_decoded_indices(raw@.take(i as int)),
            spec_polys(raw@, Seq::empty()) == match spec_polys(raw@.skip(i as int), cur@) {
                Some(rest) => Some(polys.deep_view() + rest),
                None => None::<Seq<Seq<u32>>>,
            },
        decreases raw.len() - i,
    {
        proof {
            lemma_polys_step(raw@, cur@, i as int);
        }
        let val: i32 = raw[i];
        let decoded: u32 = if val < 0 {
            let t: i64 = -(val as i64) - 1;
            t as u32
        } else {
            val as u32
        };
        idx.push(decoded as i32);
        proof {
            assert(idx@ =~= spec_decoded_indices(raw@.take(i + 1)));
        }
        cur.push(decoded);
        if val < 0 {
            let ghost old_polys = polys.deep_view();
            let ghost done = cur.deep_view();
            proof {
                assert(done =~= cur@);
            }
            polys.push(cur);
            cur = Vec::new();
            proof {
                assert(polys.deep_view() =~= old_polys.push(done));
                if spec_polys(raw@.skip(i as int + 1), Seq::empty()) is Some {
                    let rest = spec_polys(raw@.skip(i as int + 1), Seq::empty())->0;
                    assert(old_polys + (seq![done] + rest) =~= polys.deep_view() + rest);
                }
            }
        }
        i = i + 1;
    }
    proof {
        assert(raw@.skip(i as int) =~= Seq::<i32>::empty());
        assert(raw@.take(i as int) =~= raw@);
    }
    if cur.len() > 0 {
        return Err(Error::WrongNodeLayout(String::from_str("polygon list ends mid-polygon")));
    }
    proof {
        if spec_polys(Seq::<i32>::empty(), cur@) is Some {
            assert(polys.deep_view() + Seq::<Seq<u32>>::empty() =~= polys.deep_view());
        }
    }
    Ok((polys, idx))
}

/// The triples read from a flat numeric array: both floating-point widths
/// decode exactly into coordinates; a length that is not a multiple of three
/// is refused, as is any other payload type.
pub open spec fn spec_vec3s(v: ValueView) -> Option<Seq<V3>> {
    match v {
        ValueView::VecF32(b) => if b.len() % 3 == 0 {
            Some(
                Seq::new(
                    b.len() / 3,
                    |i: int|
                        V3 {
                            x: f32_fx(b[3 * i]) as i64,
                            y: f32_fx(b[3 * i + 1]) as i64,
                            z: f32_fx(b[3 * i + 2]) as i64,
                        },
                ),
            )
        } else {
            None
        },
        ValueView::VecF64(b) => if b.len() % 3 == 0 {
            Some(
                Seq::new(
                    b.len() / 3,
                    |i: int|
                        V3 {
                            x: f64_fx(b[3 * i]) as i64,
                            y: f64_fx(b[3 * i + 1]) as i64,
                            z: f64_fx(b[3 * i + 2]) as i64,
                        },
                ),
            )
        } else {
            None
        },
        _ => None,
    }
}

/// The pairs read from a flat numeric array, as `spec_vec3s`.
pub open spec fn spec_vec2s(v: ValueView) -> Option<Seq<V2>> {
    match v {
        ValueView::VecF32(b) => if b.len() % 2 == 0 {
            Some(
                Seq::new(
                    b.len() / 2,
                    |i: int| V2 { u: f32_fx(b[2 * i]) as i64, v: f32_fx(b[2 * i + 1]) as i64 },
                ),
            )
        } else {
            None
        },
        ValueView::VecF64(b) => if b.len() % 2 == 0 {
            Some(
                Seq::new(
                    b.len() / 2,
                    |i: int| V2 { u: f64_fx(b[2 * i]) as i64, v: f64_fx(b[2 * i + 1]) as i64 },
                ),
            )
        } else {
            None
        },
        _ => None,
    }
}

/// Reads coordinate triples out of a numeric array payload.
fn vec3s_from_value(v: &PropValue) -> (r: Option<Vec<V3>>)
    ensures
        match r {
            Some(out) => spec_vec3s(v@) == Some(out@),
            None => spec_vec3s(v@) is None,
        },
{
    match v {
        PropValue::VecF32(b) => {
            if b.len() % 3 != 0 {
                return None;
            }
            let n: usize = b.len() / 3;
            let mut out: Vec<V3> = Vec::new();
            let mut i: usize = 0;
            while i < n
                invariant
                    i <= n,
                    n == b@.len() / 3,
                    b@.len() % 3 == 0,
                    n * 3 == b@.len(),
                    b@.len() <= usize::MAX,
                    out@ =~= spec_vec3s(ValueView::VecF32(b@))->0.take(i as int),
                decreases n - i,
            {
                let x = fx_from_f32_bits(b[3 * i]);
                let y = fx_from_f32_bits(b[3 * i + 1]);
                let z = fx_from_f32_bits(b[3 * i + 2]);
                out.push(V3 { x, y, z });
                i = i + 1;
                proof {
                    assert(out@ =~= spec_vec3s(ValueView::VecF32(b@))->0.take(i as int));
                }
            }
            proof {
                assert(out@ =~= spec_vec3s(ValueView::VecF32(b@))->0);
            }
            Some(out)
        },
        PropValue::VecF64(b) => {
            if b.len() % 3 != 0 {
                return None;
            }
            let n: usize = b.len() / 3;
            let mut out: Vec<V3> = Vec::new();
            let mut i: usize = 0;
            while i < n
                invariant
                    i <= n,
                    n == b@.len() / 3,
                    b@.len() % 3 == 0,
                    n * 3 == b@.len(),
                    b@.len() <= usize::MAX,
                    out@ =~= spec_vec3s(ValueView::VecF64(b@))->0.take(i as int),
                decreases n - i,
            {
                let x = fx_from_f64_bits(b[3 * i]);
                let y = fx_from_f64_bits(b[3 * i + 1]);
                let z = fx_from_f64_bits(b[3 * i + 2]);
                out.push(V3 { x, y, z });
                i = i + 1;
                proof {
                    assert(out@ =~= spec_vec3s(ValueView::VecF64(b@))->0.take(i as int));
                }
            }
            proof {
                assert(out@ =~= spec_vec3s(ValueView::VecF64(b@))->0);
            }
            Some(out)
        },
        _ => None,
    }
}

/// Reads coordinate pairs out of a numeric array payload.
fn vec2s_from_value(v: &PropValue) -> (r: Option<Vec<V2>>)
    ensures
        match r {
            Some(out) => spec_vec2s(v@) == Some(out@),
            None => spec_vec2s(v@) is None,
        },
{
    match v {
        PropValue::VecF32(b) => {
            if b.len() % 2 != 0 {
                return None;
            }
            let n: usize = b.len() / 2;
            let mut out: Vec<V2> = Vec::new();
            let mut i: usize = 0;
            while i < n
                invariant
                    i <= n,
                    n == b@.len() / 2,
                    b@.len() % 2 == 0,
                    n * 2 == b@.len(),
                    b@.len() <= usize::MAX,
                    out@ =~= spec_vec2s(ValueView::VecF32(b@))->0.take(i as int),
                decreases n - i,
            {
                let u = fx_from_f32_bits(b[2 * i]);
                let v2 = fx_from_f32_bits(b[2 * i + 1]);
                out.push(V2 { u, v: v2 });
                i = i + 1;
                proof {
                    assert(out@ =~= spec_vec2s(ValueView::VecF32(b@))->0.take(i as int));
                }
            }
            proof {
                assert(out@ =~= spec_vec2s(ValueView::VecF32(b@))->0);
            }
            Some(out)
        },
        PropValue::VecF64(b) => {
            if b.len() % 2 != 0 {
                return None;
            }
            let n: usize = b.len() / 2;
            let mut out: Vec<V2> = Vec::new();
            let mut i: usize = 0;
            while i < n
                invariant
                    i <= n,
                    n == b@.len() / 2,
                    b@.len() % 2 == 0,
                    n * 2 == b@.len(),
                    b@.len() <= usize::MAX,
                    out@ =~= spec_vec2s(ValueView::VecF64(b@))->0.take(i as int),
                decreases n - i,
            {
                let u = fx_from_f64_bits(b[2 * i]);
                let v2 = fx_from_f64_bits(b[2 * i + 1]);
                out.push(V2 { u, v: v2 });
                i = i + 1;
                proof {
                    assert(out@ =~= spec_vec2s(ValueView::VecF64(b@))->0.take(i as int));
                }
            }
            proof {
                assert(out@ =~= spec_vec2s(ValueView::VecF64(b@))->0);
            }
            Some(out)
        },
        _ => None,
    }
}

/// Looks indices up in a data table: `Some` exactly when every index is in
/// bounds, and then the entry-by-entry selection.
fn map_by_indices<T: Copy>(data: &Vec<T>, ix: &Vec<i32>) -> (r: Option<Vec<T>>)
    ensures
        match r {
            Some(out) => {
                &&& forall|k: int| 0 <= k < ix@.len() ==> 0 <= #[trigger] ix@[k] < data@.len()
                &&& out@ == ix@.map_values(|v: i32| data@[v as int])
            },
            None => !(forall|k: int| 0 <= k < ix@.len() ==> 0 <= #[trigger] ix@[k] < data@.len()),
        },
{
    let mut out: Vec<T> = Vec::new();
    let mut k: usize = 0;
    while k < ix.len()
        invariant
            k <= ix@.len(),
            out@.len() == k,
            forall|j: int| 0 <= j < k ==> 0 <= #[trigger] ix@[j] < data@.len(),
            forall|j: int| 0 <= j < k ==> #[trigger] out@[j] == data@[ix@[j] as int],
        decreases ix@.len() - k,
    {
        let v = ix[k];
        if v < 0 || v as usize >= data.len() {
            return None;
        }
        out.push(data[v as usize]);
        k = k + 1;
    }
    proof {
        assert(out@ =~= ix@.map_values(|v: i32| data@[v as int]));
    }
    Some(out)
}

/// How the flattening of one mapped layer ends: the flattened data, or the
/// reason it cannot be produced.
pub open spec fn spec_flatten<T>(
    layer: Node,
    data: Seq<T>,
    indices_name: Seq<char>,
    vertex_indices: Seq<i32>,
) -> GeomOutcome<Seq<T>> {
    match spec_find_child(layer.children@, "ReferenceInformationType"@) {
        None => GeomOutcome::BadLayout,
        Some(rn) => if rn.properties@.len() == 0 {
            GeomOutcome::BadLayout
        } else {
            match rn.properties@[0]@ {
                ValueView::Str(s) => {
                    let direct = if s == "Direct"@ {
                        GeomOutcome::Found(data)
                    } else if s == "IndexToDirect"@ {
                        match spec_find_child(layer.children@, indices_name) {
                            None => GeomOutcome::BadLayout,
                            Some(ixn) => if ixn.properties@.len() == 0 {
                                GeomOutcome::BadLayout
                            } else {
                                match crate::value::spec_get_vec_i32(ixn.properties@[0]@) {
                                    None => GeomOutcome::BadLayout,
                                    Some(ix) => if forall|k: int|
                                        0 <= k < ix.len() ==> 0 <= #[trigger] ix[k] < data.len() {
                                        GeomOutcome::Found(
                                            ix.map_values(|v: i32| data[v as int]),
                                        )
                                    } else {
                                        GeomOutcome::BadLayout
                                    },
                                }
                            },
                        }
                    } else {
                        GeomOutcome::BadMapping
                    };
                    match direct {
                        GeomOutcome::Found(d1) => match spec_find_child(
                            layer.children@,
                            "MappingInformationType"@,
                        ) {
                            None => GeomOutcome::BadLayout,
                            Some(mn) => if mn.properties@.len() == 0 {
                                GeomOutcome::BadLayout
                            } else {
                                match mn.properties@[0]@ {
                                    ValueView::Str(s2) => if s2 == "ByPolygonVertex"@ {
                                        GeomOutcome::Found(d1)
                                    } else if s2 == "ByVertice"@ {
                                        if forall|k: int|
                                            0 <= k < vertex_indices.len() ==> 0 <= #[trigger] vertex_indices[k]
                                                < d1.len() {
                                            GeomOutcome::Found(
                                                vertex_indices.map_values(|v: i32| d1[v as int]),
                                            )
                                        } else {
                                            GeomOutcome::BadLayout
                                        }
                                    } else {
                                        GeomOutcome::BadMapping
                                    },
                                    _ => GeomOutcome::BadLayout,
                                }
                            },
                        },
                        other => other,
                    }
                },
                _ => GeomOutcome::BadLayout,
            }
        },
    }
}

/// Flattens one mapped layer (normals or texture coordinates) into one entry
/// per polygon vertex, resolving its reference and mapping schemes.
fn flatten_mapping<T: Copy>(
    layer: &Node,
    data: Vec<T>,
    indices_name: &str,
    vertex_indices: &Vec<i32>,
) -> (r: Result<Vec<T>, Error>)
    ensures
        match r {
            Ok(out) => spec_flatten(*layer, data@, indices_name@, vertex_indices@)
                == GeomOutcome::Found(out@),
            Err(Error::WrongNodeLayout(_)) => spec_flatten(
                *layer,
                data@,
                indices_name@,
                vertex_indices@,
            ) is BadLayout,
            Err(Error::UnsupportedMappingType(_)) => spec_flatten(
                *layer,
                data@,
                indices_name@,
                vertex_indices@,
            ) is BadMapping,
            Err(_) => false,
        },
{
    let rn = match layer.find_child("ReferenceInformationType") {
        Some(n) => n,
        None => {
            return Err(Error::WrongNodeLayout(String::from_str(
                "layer has no reference information",
            )));
        },
    };
    if rn.properties.len() == 0 {
        return Err(Error::WrongNodeLayout(String::from_str(
            "reference information carries no value",
        )));
    }
    let s = match rn.properties[0].get_string() {
        Some(s) => s,
        None => {
            return Err(Error::WrongNodeLayout(String::from_str(
                "reference information is not text",
            )));
        },
    };
    let d1: Vec<T> = if crate::node::str_eq(s, "Direct") {
        data
    } else if crate::node::str_eq(s, "IndexToDirect") {
        let ixn = match layer.find_child(indices_name) {
            Some(n) => n,
            None => {
                return Err(Error::WrongNodeLayout(String::from_str(
                    "indexed layer has no index list",
                )));
            },
        };
        if ixn.properties.len() == 0 {
            return Err(Error::WrongNodeLayout(String::from_str(
                "layer index list carries no value",
            )));
        }
        let ix = match ixn.properties[0].get_vec_i32() {
            Some(ix) => ix,
            None => {
                return Err(Error::WrongNodeLayout(String::from_str(
                    "layer index list is not an integer array",
                )));
            },
        };
        match map_by_indices(&data, &ix) {
            Some(out) => out,
            None => {
                return Err(Error::WrongNodeLayout(String::from_str(
                    "layer index out of range",
                )));
            },
        }
    } else {
        return Err(Error::UnsupportedMappingType(s.clone()));
    };
    let mn = match layer.find_child("MappingInformationType") {
        Some(n) => n,
        None => {
            return Err(Error::WrongNodeLayout(String::from_str(
                "layer has no mapping information",
            )));
        },
    };
    if mn.properties.len() == 0 {
        return Err(Error::WrongNodeLayout(String::from_str(
            "mapping information carries no value",
        )));
    }
    let s2 = match mn.properties[0].get_string() {
        Some(s2) => s2,
        None => {
            return Err(Error::WrongNodeLayout(String::from_str(
                "mapping information is not text",
            )));
        },
    };
    if crate::node::str_eq(s2, "ByPolygonVertex") {
        Ok(d1)
    } else if crate::node::str_eq(s2, "ByVertice") {
        match map_by_indices(&d1, vertex_indices) {
            Some(out) => Ok(out),
            None => Err(Error::WrongNodeLayout(String::from_str(
                "vertex index out of range for layer",
            ))),
        }
    } else {
        Err(Error::UnsupportedMappingType(s2.clone()))
    }
}

/// All polygon indices point into the vertex table.
pub open spec fn spec_indices_ok(g: GeometryView) -> bool {
    forall|i: int, k: int|
        0 <= i < g.polygons.len() && 0 <= k < g.polygons[i].len() ==> (#[trigger] g.polygons[i][k])
            < g.vertices.len()
}

/// The triangle cut from polygon `i` of a well-formed mesh.
pub open spec fn spec_tri(g: GeometryView, i: int) -> Tri {
    Tri {
        v0: TriVert {
            position: g.vertices[g.polygons[i][0] as int],
            normal: g.normals[3 * i],
            uv: g.uvs[3 * i],
        },
        v1: TriVert {
            position: g.vertices[g.polygons[i][1] as int],
            normal: g.normals[3 * i + 1],
            uv: g.uvs[3 * i + 1],
        },
        v2: TriVert {
            position: g.vertices[g.polygons[i][2] as int],
            normal: g.normals[3 * i + 2],
            uv: g.uvs[3 * i + 2],
        },
    }
}

impl Geometry {
    /// A mesh with no data at all.
    pub fn empty() -> (r: Geometry)
        ensures
            r@ == (GeometryView {
                vertices: Seq::empty(),
                polygons: Seq::empty(),
                normals: Seq::empty(),
                uvs: Seq::empty(),
            }),
    {
        let r = Geometry {
            vertices: Vec::new(),
            polygons: Vec::new(),
            normals: Vec::new(),
            uvs: Vec::new(),
        };
        proof {
            assert(r@.vertices =~= Seq::<V3>::empty());
            assert(r@.polygons =~= Seq::<Seq<u32>>::empty());
            assert(r@.normals =~= Seq::<V3>::empty());
            assert(r@.uvs =~= Seq::<V2>::empty());
        }
        r
    }

    /// Cuts the mesh into one triangle per polygon. Every polygon must hold
    /// exactly 3 indices; the flattened normal and texture-coordinate layers
    /// must agree and cover every polygon vertex, and every index must point
    /// into the vertex table.
    pub fn triangles(&self) -> (r: Result<Vec<Tri>, Error>)
        ensures
            match r {
                Ok(ts) => {
                    &&& forall|i: int|
                        0 <= i < self@.polygons.len() ==> (#[trigger] self@.polygons[i]).len() == 3
                    &&& self@.normals.len() == self@.uvs.len()
                    &&& self@.normals.len() >= 3 * self@.polygons.len()
                    &&& spec_indices_ok(self@)
                    &&& ts@.len() == self@.polygons.len()
                    &&& forall|i: int| 0 <= i < ts@.len() ==> #[trigger] ts@[i] == spec_tri(self@, i)
                },
                Err(Error::MalformedPolygon) => !(forall|i: int|
                    0 <= i < self@.polygons.len() ==> (#[trigger] self@.polygons[i]).len() == 3),
                Err(Error::WrongNodeLayout(_)) => {
                    &&& forall|i: int|
                        0 <= i < self@.polygons.len() ==> (#[trigger] self@.polygons[i]).len() == 3
                    &&& (self@.normals.len() != self@.uvs.len() || self@.normals.len() < 3
                        * self@.polygons.len() || !spec_indices_ok(self@))
                },
                Err(_) => false,
            },
    {
        let n = self.polygons.len();
        let mut i: usize = 0;
        while i < n
            invariant
                i <= n,
                n == self.polygons@.len(),
                forall|j: int|
                    0 <= j < i ==> (#[trigger] self.polygons@[j]@).len() == 3,
            decreases n - i,
        {
            if self.polygons[i].len() != 3 {
                proof {
                    assert(self@.polygons[i as int].len() != 3);
                }
                return Err(Error::MalformedPolygon);
            }
            proof {
                assert(self@.polygons[i as int].len() == 3);
            }
            i = i + 1;
        }
        proof {
            assert(forall|j: int|
                0 <= j < self@.polygons.len() ==> (#[trigger] self@.polygons[j]).len() == 3);
        }
        if self.normals.len() != self.uvs.len() {
            return Err(Error::WrongNodeLayout(String::from_str(
                "normal and texture layers disagree",
            )));
        }
        if n > self.normals.len() / 3 {
            proof {
                assert(self@.normals.len() < 3 * self@.polygons.len());
            }
            return Err(Error::WrongNodeLayout(String::from_str(
                "layers do not cover every polygon vertex",
            )));
        }
        let mut ts: Vec<Tri> = Vec::new();
        let mut i: usize = 0;
        while i < n
            invariant
                i <= n,
                n == self.polygons@.len(),
                n <= self.normals@.len() / 3,
                self.normals@.len() == self.uvs@.len(),
                self.normals@.len() <= usize::MAX,
                forall|j: int|
                    0 <= j < self.polygons@.len() ==> (#[trigger] self.polygons@[j]@).len() == 3,
                forall|j: int, k: int|
                    0 <= j < i && 0 <= k < self.polygons@[j]@.len() ==> (
                    #[trigger] self.polygons@[j]@[k]) < self.vertices@.len(),
                ts@.len() == i,
                forall|j: int| 0 <= j < i ==> #[trigger] ts@[j] == spec_tri(self@, j),
            decreases n - i,
        {
            let poly = &self.polygons[i];
            let i0 = poly[0];
            let i1 = poly[1];
            let i2 = poly[2];
            if i0 as usize >= self.vertices.len() || i1 as usize >= self.vertices.len() || i2
                as usize >= self.vertices.len() {
                proof {
                    let gi = i as int;
                    if spec_indices_ok(self@) {
                        assert(self@.polygons[gi][0] < self@.vertices.len());
                        assert(self@.polygons[gi][1] < self@.vertices.len());
                        assert(self@.polygons[gi][2] < self@.vertices.len());
                    }
                    assert(!spec_indices_ok(self@));
                }
                return Err(Error::WrongNodeLayout(String::from_str(
                    "polygon index out of range",
                )));
            }
            let t = Tri {
                v0: TriVert {
                    position: self.vertices[i0 as usize],
                    normal: self.normals[3 * i],
                    uv: self.uvs[3 * i],
                },
                v1: TriVert {
                    position: self.vertices[i1 as usize],
                    normal: self.normals[3 * i + 1],
                    uv: self.uvs[3 * i + 1],
                },
                v2: TriVert {
                    position: self.vertices[i2 as usize],
                    normal: self.normals[3 * i + 2],
                    uv: self.uvs[3 * i + 2],
                },
            };
            ts.push(t);
            proof {
                assert(ts@[i as int] == spec_tri(self@, i as int));
            }
            i = i + 1;
        }
        proof {
            assert(spec_indices_ok(self@));
        }
        Ok(ts)
    }
}

/// How reading a whole mesh out of a `"Geometry"` node ends.
pub open spec fn spec_geometry_from_node(node: Node) -> GeomOutcome<GeometryView> {
    if node.properties@.len() < 3 {
        GeomOutcome::BadLayout
    } else {
        match node.properties@[2]@ {
            ValueView::Str(c) => if c != "Mesh"@ {
                GeomOutcome::Found(
                    GeometryView {
                        vertices: Seq::empty(),
                        polygons: Seq::empty(),
                        normals: Seq::empty(),
                        uvs: Seq::empty(),
                    },
                )
            } else {
                match spec_find_child(node.children@, "Vertices"@) {
                    None => GeomOutcome::BadLayout,
                    Some(vn) => if vn.properties@.len() == 0 {
                        GeomOutcome::BadLayout
                    } else {
                        match spec_vec3s(vn.properties@[0]@) {
                            None => GeomOutcome::BadLayout,
                            Some(vertices) => match spec_find_child(
                                node.children@,
                                "PolygonVertexIndex"@,
                            ) {
                                None => GeomOutcome::BadLayout,
                                Some(pin) => if pin.properties@.len() == 0 {
                                    GeomOutcome::BadLayout
                                } else {
                                    match crate::value::spec_get_vec_i32(pin.properties@[0]@) {
                                        None => GeomOutcome::BadLayout,
                                        Some(raw) => match spec_polys(raw, Seq::empty()) {
                                            None => GeomOutcome::BadLayout,
                                            Some(polygons) => spec_geometry_layers(
                                                node,
                                                vertices,
                                                polygons,
                                                spec_decoded_indices(raw),
                                            ),
                                        },
                                    }
                                },
                            },
                        }
                    },
                }
            },
            _ => GeomOutcome::BadLayout,
        }
    }
}

/// The layer half of `spec_geometry_from_node`: flattened normals, then
/// flattened texture coordinates.
pub open spec fn spec_geometry_layers(
    node: Node,
    vertices: Seq<V3>,
    polygons: Seq<Seq<u32>>,
    indices: Seq<i32>,
) -> GeomOutcome<GeometryView> {
    match spec_find_child(node.children@, "LayerElementNormal"@) {
        None => GeomOutcome::BadLayout,
        Some(ln) => match spec_find_child(ln.children@, "Normals"@) {
            None => GeomOutcome::BadLayout,
            Some(dn) => if dn.properties@.len() == 0 {
                GeomOutcome::BadLayout
            } else {
                match spec_vec3s(dn.properties@[0]@) {
                    None => GeomOutcome::BadLayout,
                    Some(ndata) => match spec_flatten(ln, ndata, "NormalsIndex"@, indices) {
                        GeomOutcome::Found(normals) => match spec_find_child(
                            node.children@,
                            "LayerElementUV"@,
                        ) {
                            None => GeomOutcome::BadLayout,
                            Some(lu) => match spec_find_child(lu.children@, "UV"@) {
                                None => GeomOutcome::BadLayout,
                                Some(du) => if du.properties@.len() == 0 {
                                    GeomOutcome::BadLayout
                                } else {
                                    match spec_vec2s(du.properties@[0]@) {
                                        None => GeomOutcome::BadLayout,
                                        Some(udata) => match spec_flatten(
                                            lu,
                                            udata,
                                            "UVIndex"@,
                                            indices,
                                        ) {
                                            GeomOutcome::Found(uvs) => GeomOutcome::Found(
                                                GeometryView { vertices, polygons, normals, uvs },
                                            ),
                                            GeomOutcome::BadLayout => GeomOutcome::BadLayout,
                                            GeomOutcome::BadMapping => GeomOutcome::BadMapping,
                                        },
                                    }
                                },
                            },
                        },
                        GeomOutcome::BadLayout => GeomOutcome::BadLayout,
                        GeomOutcome::BadMapping => GeomOutcome::BadMapping,
                    },
                }
            },
        },
    }
}

impl Geometry {
    /// Reads the mesh data out of a `"Geometry"` node. A node whose class
    /// tag is not `"Mesh"` reads as an empty mesh; a missing or malformed
    /// child is a layout error, and an unknown reference or mapping scheme in
    /// a layer is a mapping error.
    pub fn from_node(node: &Node) -> (r: Result<Geometry, Error>)
        ensures
            match r {
                Ok(g) => spec_geometry_from_node(*node) == GeomOutcome::Found(g@),
                Err(Error::WrongNodeLayout(_)) => spec_geometry_from_node(*node) is BadLayout,
                Err(Error::UnsupportedMappingType(_)) => spec_geometry_from_node(
                    *node,
                ) is BadMapping,
                Err(_) => false,
            },
    {
        if node.properties.len() < 3 {
            return Err(Error::WrongNodeLayout(String::from_str(
                "geometry node carries no class tag",
            )));
        }
        let class = match node.properties[2].get_string() {
            Some(c) => c,
            None => {
                return Err(Error::WrongNodeLayout(String::from_str(
                    "geometry class tag is not text",
                )));
            },
        };
        if !crate::node::str_eq(class, "Mesh") {
            return Ok(Geometry::empty());
        }
        let vn = match node.find_child("Vertices") {
            Some(n) => n,
            None => {
                return Err(Error::WrongNodeLayout(String::from_str(
                    "mesh has no vertex data",
                )));
            },
        };
        if vn.properties.len() == 0 {
            return Err(Error::WrongNodeLayout(String::from_str(
                "vertex data carries no value",
            )));
        }
        let vertices = match vec3s_from_value(&vn.properties[0]) {
            Some(v) => v,
            None => {
                return Err(Error::WrongNodeLayout(String::from_str(
                    "vertex data is not a coordinate array",
                )));
            },
        };
        let pin = match node.find_child("PolygonVertexIndex") {
            Some(n) => n,
            None => {
                return Err(Error::WrongNodeLayout(String::from_str(
                    "mesh has no polygon index list",
                )));
            },
        };
        if pin.properties.len() == 0 {
            return Err(Error::WrongNodeLayout(String::from_str(
                "polygon index list carries no value",
            )));
        }
        let raw = match pin.properties[0].get_vec_i32() {
            Some(v) => v,
            None => {
                return Err(Error::WrongNodeLayout(String::from_str(
                    "polygon index list is not an integer array",
                )));
            },
        };
        let (polygons, indices) = match decode_polygons(&raw) {
            Ok(p) => p,
            Err(e) => {
                return Err(e);
            },
        };
        let ln = match node.find_child("LayerElementNormal") {
            Some(n) => n,
            None => {
                return Err(Error::WrongNodeLayout(String::from_str(
                    "mesh has no normal layer",
                )));
            },
        };
        let dn = match ln.find_child("Normals") {
            Some(n) => n,
            None => {
                return Err(Error::WrongNodeLayout(String::from_str(
                    "normal layer has no data",
                )));
            },
        };
        if dn.properties.len() == 0 {
            return Err(Error::WrongNodeLayout(String::from_str(
                "normal data carries no value",
            )));
        }
        let ndata = match vec3s_from_value(&dn.properties[0]) {
            Some(v) => v,
            None => {
                return Err(Error::WrongNodeLayout(String::from_str(
                    "normal data is not a coordinate array",
                )));
            },
        };
        let normals = match flatten_mapping(ln, ndata, "NormalsIndex", &indices) {
            Ok(v) => v,
            Err(e) => {
                return Err(e);
            },
        };
        let lu = match node.find_child("LayerElementUV") {
            Some(n) => n,
            None => {
                return Err(Error::WrongNodeLayout(String::from_str(
                    "mesh has no texture-coordinate layer",
                )));
            },
        };
        let du = match lu.find_child("UV") {
            Some(n) => n,
            None => {
                return Err(Error::WrongNodeLayout(String::from_str(
                    "texture-coordinate layer has no data",
                )));
            },
        };
        if du.properties.len() == 0 {
            return Err(Error::WrongNodeLayout(String::from_str(
                "texture-coordinate data carries no value",
            )));
        }
        let udata = match vec2s_from_value(&du.properties[0]) {
            Some(v) => v,
            None => {
                return Err(Error::WrongNodeLayout(String::from_str(
                    "texture-coordinate data is not a coordinate array",
                )));
            },
        };
        let uvs = match flatten_mapping(lu, udata, "UVIndex", &indices) {
            Ok(v) => v,
            Err(e) => {
                return Err(e);
            },
        };
        Ok(Geometry { vertices, polygons, normals, uvs })
    }
}

} // verus!
