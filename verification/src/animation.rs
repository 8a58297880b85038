//! The animation curve evaluator: finds the animation stack, enumerates its
//! curve nodes, reports the frame count, and bakes per-frame curve values
//! into driven object properties.

use vstd::prelude::*;

use crate::simple::object::{ClassView, Object, ObjectType, ObjectView};
use crate::simple::animation::CurveView;
use crate::simple::properties::{prop_index, spec_prop_index, props_view, Property, PropertyView};
use crate::simple::{
    conns_view, objs_view, spec_children_of, spec_driven_props, spec_driving_props,
    spec_object_index, ConnectionView, DrivenPropertyView, GraphView, ObjectId, SimpleFbx,
};
use crate::value::{PropValue, ValueView};

verus! {

/// The id of the first object whose class is an animation stack, if any.
pub open spec fn spec_first_stack(objs: Seq<ObjectView>) -> Option<i64>
    decreases objs.len(),
{
    if objs.len() == 0 {
        None
    } else if objs[0].class is AnimationStack {
        Some(objs[0].id)
    } else {
        spec_first_stack(objs.drop_first())
    }
}

/// The curve nodes below a stack: for each layer under the stack, in order,
/// every child of that layer, in order.
pub open spec fn spec_nodes_of_layers(cs: Seq<crate::simple::ConnectionView>, layers: Seq<i64>) -> Seq<i64>
    decreases layers.len(),
{
    if layers.len() == 0 {
        Seq::empty()
    } else {
        spec_nodes_of_layers(cs, layers.drop_last()) + spec_children_of(cs, layers.last())
    }
}

/// Every curve node of a graph's first animation stack.
pub open spec fn spec_curve_nodes(g: GraphView) -> Seq<i64> {
    match spec_first_stack(g.objects) {
        Some(stack) => spec_nodes_of_layers(g.connections, spec_children_of(g.connections, stack)),
        None => Seq::empty(),
    }
}

/// The curve carried by the object with the given id, if that object is an
/// animation curve.
pub open spec fn spec_curve_of(objs: Seq<ObjectView>, id: i64) -> Option<CurveView> {
    match spec_object_index(objs, id) {
        Some(i) => match objs[i].class {
            ClassView::AnimationCurve(c) => Some(c),
            _ => None,
        },
        None => None,
    }
}

/// The frame count of an animation: the frame count of the first curve
/// found to drive any curve node, scanning nodes in enumeration order, or 0
/// where no node is driven by a curve.
pub open spec fn spec_frame_count(g: GraphView, nodes: Seq<i64>) -> i32
    decreases nodes.len(),
{
    if nodes.len() == 0 {
        0
    } else {
        let edges = spec_driven_props(g.connections, nodes[0]);
        if edges.len() > 0 {
            match spec_curve_of(g.objects, edges[0].driver) {
                Some(c) => c.frames,
                None => 0,
            }
        } else {
            spec_frame_count(g, nodes.drop_first())
        }
    }
}

/// One step of the suffix recursion behind `spec_first_stack`.
proof fn lemma_first_stack_step(objs: Seq<ObjectView>, i: int)
    requires
        0 <= i < objs.len(),
    ensures
        spec_first_stack(objs.skip(i)) == if objs[i].class is AnimationStack {
            Some(objs[i].id)
        } else {
            spec_first_stack(objs.skip(i + 1))
        },
{
    assert(objs.skip(i).len() > 0);
    assert(objs.skip(i)[0] == objs[i]);
    assert(objs.skip(i).drop_first() =~= objs.skip(i + 1));
}

/// One step of the suffix recursion behind `spec_frame_count`.
proof fn lemma_frame_count_step(g: GraphView, nodes: Seq<i64>, i: int)
    requires
        0 <= i < nodes.len(),
    ensures
        spec_frame_count(g, nodes.skip(i)) == {
            let edges = spec_driven_props(g.connections, nodes[i]);
            if edges.len() > 0 {
                match spec_curve_of(g.objects, edges[0].driver) {
                    Some(c) => c.frames,
                    None => 0i32,
                }
            } else {
                spec_frame_count(g, nodes.skip(i + 1))
            }
        },
{
    assert(nodes.skip(i).len() > 0);
    assert(nodes.skip(i)[0] == nodes[i]);
    assert(nodes.skip(i).drop_first() =~= nodes.skip(i + 1));
}

/// The evaluator attached to a graph's first animation stack: the ids of
/// every curve node below it, in enumeration order.
#[derive(Debug)]
pub struct Animation {
    curve_nodes: Vec<ObjectId>,
}

impl View for Animation {
    type V = Seq<i64>;

    closed spec fn view(&self) -> Seq<i64> {
        self.curve_nodes@
    }
}

impl Animation {
    /// Attaches to the first animation stack of the graph, enumerating its
    /// curve nodes by walking stack, layers and layer children in order.
    /// A graph with no stack yields no evaluator.
    pub fn from_simple(fbx: &SimpleFbx) -> (r: Option<Animation>)
        ensures
            match r {
                Some(a) => spec_first_stack(fbx@.objects) is Some && a@ == spec_curve_nodes(fbx@),
                None => spec_first_stack(fbx@.objects) is None,
            },
    {
        let ghost ov = objs_view(fbx.objects@);
        let mut si: usize = 0;
        let mut stack_id: ObjectId = 0;
        let mut found = false;
        proof {
            assert(ov.skip(0) =~= ov);
        }
        while si < fbx.objects.len() && !found
            invariant
                si <= fbx.objects@.len(),
                ov == objs_view(fbx.objects@),
                ov.len() == fbx.objects@.len(),
                forall|j: int| 0 <= j < ov.len() ==> ov[j] == fbx.objects@[j]@,
                found ==> spec_first_stack(ov) == Some(stack_id),
                !found ==> spec_first_stack(ov) == spec_first_stack(ov.skip(si as int)),
            decreases fbx.objects@.len() - si + if found { 0int } else { 1int },
        {
            proof {
                lemma_first_stack_step(ov, si as int);
            }
            match &fbx.objects[si].class {
                ObjectType::AnimationStack => {
                    stack_id = fbx.objects[si].id;
                    found = true;
                },
                _ => {
                    si = si + 1;
                },
            }
        }
        if !found {
            proof {
                assert(ov.skip(si as int) =~= Seq::<ObjectView>::empty());
            }
            return None;
        }
        let ghost cs = conns_view(fbx.connections@);
        let layers = fbx.children_of(stack_id);
        let mut curve_nodes: Vec<ObjectId> = Vec::new();
        let mut i: usize = 0;
        proof {
            assert(layers@.take(0) =~= Seq::<i64>::empty());
            assert(curve_nodes@ =~= Seq::<i64>::empty());
            assert(spec_nodes_of_layers(cs, layers@.take(0)) =~= Seq::<i64>::empty());
        }
        while i < layers.len()
            invariant
                i <= layers@.len(),
                cs == conns_view(fbx.connections@),
                layers@ == spec_children_of(cs, stack_id),
                curve_nodes@ == spec_nodes_of_layers(cs, layers@.take(i as int)),
            decreases layers@.len() - i,
        {
            proof {
                assert(layers@.take(i as int + 1).drop_last() =~= layers@.take(i as int));
                assert(layers@.take(i as int + 1).last() == layers@[i as int]);
            }
            let kids = fbx.children_of(layers[i]);
            let ghost kv = kids@;
            let ghost base = curve_nodes@;
            let mut k: usize = 0;
            proof {
                assert(base + kv.take(0) =~= base);
            }
            while k < kids.len()
                invariant
                    k <= kv.len(),
                    kids@ == kv,
                    curve_nodes@ == base + kv.take(k as int),
                decreases kv.len() - k,
            {
                curve_nodes.push(kids[k]);
                k = k + 1;
                proof {
                    assert(base + kv.take(k as int) =~= curve_nodes@);
                }
            }
            proof {
                assert(kv.take(kv.len() as int) =~= kv);
                assert(curve_nodes@ =~= spec_nodes_of_layers(cs, layers@.take(i as int + 1)));
            }
            i = i + 1;
        }
        proof {
            assert(layers@.take(i as int) =~= layers@);
        }
        Some(Animation { curve_nodes })
    }

    /// The frame count of the animation: the value-list length of the first
    /// curve found to drive any curve node, or 0 where no curve node is
    /// driven (in particular for an empty stack).
    pub fn frame_count(&self, fbx: &SimpleFbx) -> (r: i32)
        ensures
            r == spec_frame_count(fbx@, self@),
    {
        let ghost nodes = self.curve_nodes@;
        let mut i: usize = 0;
        proof {
            assert(nodes.skip(0) =~= nodes);
        }
        while i < self.curve_nodes.len()
            invariant
                i <= nodes.len(),
                nodes == self.curve_nodes@,
                spec_frame_count(fbx@, nodes) == spec_frame_count(fbx@, nodes.skip(i as int)),
            decreases nodes.len() - i,
        {
            proof {
                lemma_frame_count_step(fbx@, nodes, i as int);
            }
            let curves = fbx.driven_properties_of(self.curve_nodes[i]);
            if curves.len() > 0 {
                proof {
                    assert(curves.deep_view()[0] == curves@[0]@);
                }
                match fbx.get(curves[0].driver) {
                    Some(o) => {
                        match &o.class {
                            ObjectType::AnimationCurve(c) => {
                                return c.frames;
                            },
                            _ => {
                                return 0;
                            },
                        }
                    },
                    None => {
                        return 0;
                    },
                }
            }
            i = i + 1;
        }
        proof {
            assert(nodes.skip(i as int) =~= Seq::<i64>::empty());
        }
        0
    }
}

/// The arena with one object's one property given a fresh value list.
pub open spec fn spec_set_prop_values(
    objs: Seq<ObjectView>,
    oi: int,
    pi: int,
    vals: Seq<ValueView>,
) -> Seq<ObjectView> {
    let o = objs[oi];
    let p = o.properties[pi];
    objs.update(
        oi,
        ObjectView {
            properties: o.properties.update(pi, PropertyView { name: p.name, values: vals }),
            ..o
        },
    )
}

/// One driven edge baked: the curve value at `frame` overwrites the first
/// scalar of the curve node's same-named property. An edge whose driver is
/// not a curve, whose target or property is absent, whose frame is outside
/// the curve, or whose property holds no scalar at all is left alone.
pub open spec fn spec_apply_driven_edge(
    objs: Seq<ObjectView>,
    e: DrivenPropertyView,
    frame: i32,
) -> Seq<ObjectView> {
    match spec_curve_of(objs, e.driver) {
        Some(c) => match spec_object_index(objs, e.driven) {
            Some(oi) => match spec_prop_index(objs[oi].properties, e.name) {
                Some(pi) => if 0 <= frame < c.values.len() && objs[oi].properties[pi].values.len()
                    >= 1 {
                    spec_set_prop_values(
                        objs,
                        oi,
                        pi,
                        objs[oi].properties[pi].values.update(0, c.values[frame as int]),
                    )
                } else {
                    objs
                },
                None => objs,
            },
            None => objs,
        },
        None => objs,
    }
}

/// Every driven edge of one curve node baked, in edge order.
pub open spec fn spec_apply_driven(
    objs: Seq<ObjectView>,
    edges: Seq<DrivenPropertyView>,
    frame: i32,
) -> Seq<ObjectView>
    decreases edges.len(),
{
    if edges.len() == 0 {
        objs
    } else {
        spec_apply_driven(spec_apply_driven_edge(objs, edges[0], frame), edges.drop_first(), frame)
    }
}

/// A value list overwritten position by position with the first scalar of
/// each property of a source store; positions past the source, and positions
/// whose source property holds no scalar, keep their old value.
pub open spec fn spec_overwrite_values(
    target: Seq<ValueView>,
    src: Seq<PropertyView>,
) -> Seq<ValueView> {
    Seq::new(
        target.len(),
        |i: int|
            if i < src.len() && src[i].values.len() > 0 {
                src[i].values[0]
            } else {
                target[i]
            },
    )
}

/// One driving edge propagated: the curve node's own property scalars
/// overwrite the correspondingly-positioned scalars of the driven object's
/// named property. A missing node, target or property leaves the arena
/// alone.
pub open spec fn spec_apply_driving_edge(
    objs: Seq<ObjectView>,
    n: i64,
    e: DrivenPropertyView,
) -> Seq<ObjectView> {
    match spec_object_index(objs, n) {
        Some(ni) => match spec_object_index(objs, e.driven) {
            Some(oi) => match spec_prop_index(objs[oi].properties, e.name) {
                Some(pi) => spec_set_prop_values(
                    objs,
                    oi,
                    pi,
                    spec_overwrite_values(
                        objs[oi].properties[pi].values,
                        objs[ni].properties,
                    ),
                ),
                None => objs,
            },
            None => objs,
        },
        None => objs,
    }
}

/// Every driving edge of one curve node propagated, in edge order.
pub open spec fn spec_apply_driving(
    objs: Seq<ObjectView>,
    n: i64,
    edges: Seq<DrivenPropertyView>,
) -> Seq<ObjectView>
    decreases edges.len(),
{
    if edges.len() == 0 {
        objs
    } else {
        spec_apply_driving(spec_apply_driving_edge(objs, n, edges[0]), n, edges.drop_first())
    }
}

/// One curve node evaluated: first its driven edges are baked from their
/// curves, then its driving edges propagate the values just written, before
/// any later node runs.
pub open spec fn spec_eval_node(
    objs: Seq<ObjectView>,
    cs: Seq<ConnectionView>,
    n: i64,
    frame: i32,
) -> Seq<ObjectView> {
    spec_apply_driving(
        spec_apply_driven(objs, spec_driven_props(cs, n), frame),
        n,
        spec_driving_props(cs, n),
    )
}

/// The whole evaluation of one frame: every curve node in enumeration
/// order, single pass.
pub open spec fn spec_evaluate(
    objs: Seq<ObjectView>,
    cs: Seq<ConnectionView>,
    nodes: Seq<i64>,
    frame: i32,
) -> Seq<ObjectView>
    decreases nodes.len(),
{
    if nodes.len() == 0 {
        objs
    } else {
        spec_evaluate(spec_eval_node(objs, cs, nodes[0], frame), cs, nodes.drop_first(), frame)
    }
}

/// One step of the suffix recursion behind `spec_evaluate`.
proof fn lemma_evaluate_step(
    objs: Seq<ObjectView>,
    cs: Seq<ConnectionView>,
    nodes: Seq<i64>,
    frame: i32,
    i: int,
)
    requires
        0 <= i < nodes.len(),
    ensures
        spec_evaluate(objs, cs, nodes.skip(i), frame) == spec_evaluate(
            spec_eval_node(objs, cs, nodes[i], frame),
            cs,
            nodes.skip(i + 1),
            frame,
        ),
{
    assert(nodes.skip(i).len() > 0);
    assert(nodes.skip(i)[0] == nodes[i]);
    assert(nodes.skip(i).drop_first() =~= nodes.skip(i + 1));
}

/// One step of the suffix recursion behind `spec_apply_driven`.
proof fn lemma_apply_driven_step(
    objs: Seq<ObjectView>,
    edges: Seq<DrivenPropertyView>,
    frame: i32,
    k: int,
)
    requires
        0 <= k < edges.len(),
    ensures
        spec_apply_driven(objs, edges.skip(k), frame) == spec_apply_driven(
            spec_apply_driven_edge(objs, edges[k], frame),
            edges.skip(k + 1),
            frame,
        ),
{
    assert(edges.skip(k).len() > 0);
    assert(edges.skip(k)[0] == edges[k]);
    assert(edges.skip(k).drop_first() =~= edges.skip(k + 1));
}

/// One step of the suffix recursion behind `spec_apply_driving`.
proof fn lemma_apply_driving_step(
    objs: Seq<ObjectView>,
    n: i64,
    edges: Seq<DrivenPropertyView>,
    k: int,
)
    requires
        0 <= k < edges.len(),
    ensures
        spec_apply_driving(objs, n, edges.skip(k)) == spec_apply_driving(
            spec_apply_driving_edge(objs, n, edges[k]),
            n,
            edges.skip(k + 1),
        ),
{
    assert(edges.skip(k).len() > 0);
    assert(edges.skip(k)[0] == edges[k]);
    assert(edges.skip(k).drop_first() =~= edges.skip(k + 1));
}

/// Swaps one property's value list for a fresh one, in place.
fn set_prop_values(objs: &mut Vec<Object>, oi: usize, pi: usize, vals: Vec<PropValue>)
    requires
        oi < old(objs)@.len(),
        pi < old(objs)@[oi as int]@.properties.len(),
    ensures
        objs_view(final(objs)@) == spec_set_prop_values(
            objs_view(old(objs)@),
            oi as int,
            pi as int,
            vals.deep_view(),
        ),
{
    let ghost ov = objs_view(objs@);
    let mut o = objs.remove(oi);
    let ghost o_view = o@;
    let p = o.properties.remove(pi);
    let np = Property { name: p.name, values: vals };
    let ghost np_view = np@;
    o.properties.insert(pi, np);
    proof {
        assert(props_view(o.properties@) =~= o_view.properties.update(pi as int, np_view));
    }
    let ghost o2_view = o@;
    objs.insert(oi, o);
    proof {
        assert(objs_view(objs@) =~= ov.update(oi as int, o2_view));
        assert(np_view.values =~= vals.deep_view());
        assert(o2_view.properties =~= o_view.properties.update(
            pi as int,
            PropertyView { name: o_view.properties[pi as int].name, values: vals.deep_view() },
        ));
        assert(objs_view(objs@) =~= spec_set_prop_values(ov, oi as int, pi as int, vals.deep_view()));
    }
}

/// A copy of a value list with one slot replaced.
fn clone_values_set(vals: &Vec<PropValue>, slot: usize, v: PropValue) -> (r: Vec<PropValue>)
    requires
        slot < vals@.len(),
    ensures
        r.deep_view() == vals.deep_view().update(slot as int, v@),
{
    let mut r: Vec<PropValue> = Vec::new();
    let mut i: usize = 0;
    let ghost vv = v@;
    while i < vals.len()
        invariant
            i <= vals@.len(),
            slot < vals@.len(),
            vv == v@,
            r@.len() == i,
            forall|j: int|
                0 <= j < i && j != slot ==> #[trigger] r.deep_view()[j] == vals.deep_view()[j],
            slot < i ==> r.deep_view()[slot as int] == vv,
        decreases vals@.len() - i,
    {
        let ghost orv = r@;
        let ghost ordv = r.deep_view();
        if i == slot {
            r.push(v.duplicate());
        } else {
            r.push(vals[i].duplicate());
        }
        proof {
            assert(r@.len() == orv.len() + 1);
            assert(forall|j: int| 0 <= j < orv.len() ==> r@[j] == orv[j]);
            assert(forall|j: int|
                0 <= j < orv.len() ==> #[trigger] r.deep_view()[j] == ordv[j]);
            assert(r.deep_view()[orv.len() as int] == r@[orv.len() as int]@);
        }
        i = i + 1;
    }
    proof {
        assert(r.deep_view() =~= vals.deep_view().update(slot as int, vv));
    }
    r
}

/// A copy of a value list overwritten position by position from a property
/// store, as `spec_overwrite_values` says.
fn clone_values_overwrite(target: &Vec<PropValue>, src: &Vec<Property>) -> (r: Vec<PropValue>)
    ensures
        r.deep_view() == spec_overwrite_values(target.deep_view(), props_view(src@)),
{
    let mut r: Vec<PropValue> = Vec::new();
    let mut i: usize = 0;
    while i < target.len()
        invariant
            i <= target@.len(),
            r@.len() == i,
            forall|j: int|
                0 <= j < i ==> #[trigger] r.deep_view()[j] == spec_overwrite_values(
                    target.deep_view(),
                    props_view(src@),
                )[j],
        decreases target@.len() - i,
    {
        let ghost orv = r@;
        let ghost ordv = r.deep_view();
        if i < src.len() && src[i].values.len() > 0 {
            let v = src[i].values[0].duplicate();
            proof {
                assert(props_view(src@)[i as int] == src@[i as int]@);
                assert(props_view(src@)[i as int].values[0] == src@[i as int].values.deep_view()[0]);
            }
            r.push(v);
        } else {
            proof {
                if i < src@.len() {
                    assert(props_view(src@)[i as int] == src@[i as int]@);
                }
            }
            r.push(target[i].duplicate());
        }
        proof {
            assert(r@.len() == orv.len() + 1);
            assert(forall|j: int| 0 <= j < orv.len() ==> r@[j] == orv[j]);
            assert(forall|j: int|
                0 <= j < orv.len() ==> #[trigger] r.deep_view()[j] == ordv[j]);
            assert(r.deep_view()[orv.len() as int] == r@[orv.len() as int]@);
            assert(target.deep_view()[i as int] == target@[i as int]@);
        }
        i = i + 1;
    }
    proof {
        assert(r.deep_view() =~= spec_overwrite_values(target.deep_view(), props_view(src@)));
    }
    r
}

impl Animation {
    /// Bakes one frame into the graph: for each curve node, in enumeration
    /// order, the values of the curves driving the node first overwrite the
    /// node's own properties, and the node's property values then overwrite
    /// the driven objects' named properties — a single pass per node, so a
    /// later node sees every earlier write. An edge whose driver, target,
    /// property or frame index does not line up writes nothing.
    pub fn transform_fbx_to_frame(&self, fbx: &mut SimpleFbx, frame: i32)
        ensures
            final(fbx)@.connections == old(fbx)@.connections,
            final(fbx)@.objects == spec_evaluate(
                old(fbx)@.objects,
                old(fbx)@.connections,
                self@,
                frame,
            ),
    {
        let ghost cs = conns_view(fbx.connections@);
        let ghost orig = objs_view(fbx.objects@);
        let ghost nodes = self.curve_nodes@;
        let mut i: usize = 0;
        proof {
            assert(nodes.skip(0) =~= nodes);
        }
        while i < self.curve_nodes.len()
            invariant
                i <= nodes.len(),
                nodes == self@,
                nodes == self.curve_nodes@,
                cs == conns_view(fbx.connections@),
                spec_evaluate(orig, cs, nodes, frame) == spec_evaluate(
                    objs_view(fbx.objects@),
                    cs,
                    nodes.skip(i as int),
                    frame,
                ),
            decreases nodes.len() - i,
        {
            proof {
                lemma_evaluate_step(objs_view(fbx.objects@), cs, nodes, frame, i as int);
            }
            let n = self.curve_nodes[i];
            let ghost a0 = objs_view(fbx.objects@);

            let edges = fbx.driven_properties_of(n);
            let ghost ev = edges.deep_view();
            let mut k: usize = 0;
            proof {
                assert(ev.skip(0) =~= ev);
            }
            while k < edges.len()
                invariant
                    k <= ev.len(),
                    edges.deep_view() == ev,
                    edges@.len() == ev.len(),
                    cs == conns_view(fbx.connections@),
                    spec_apply_driven(a0, ev, frame) == spec_apply_driven(
                        objs_view(fbx.objects@),
                        ev.skip(k as int),
                        frame,
                    ),
                decreases ev.len() - k,
            {
                proof {
                    lemma_apply_driven_step(objs_view(fbx.objects@), ev, frame, k as int);
                    assert(ev[k as int] == edges@[k as int]@);
                }
                let ghost before = objs_view(fbx.objects@);
                let e = &edges[k];
                let fv: Option<PropValue> = match fbx.object_index(e.driver) {
                    Some(di) => {
                        proof {
                            crate::simple::lemma_object_index_props(before, e@.driver);
                        }
                        match &fbx.objects[di].class {
                            ObjectType::AnimationCurve(c) => {
                                if frame >= 0 && (frame as usize) < c.values.len() {
                                    proof {
                                        assert(before[di as int].class
                                            == ClassView::AnimationCurve(c@));
                                    }
                                    Some(c.values[frame as usize].duplicate())
                                } else {
                                    None
                                }
                            },
                            _ => None,
                        }
                    },
                    None => None,
                };
                match fv {
                    Some(fv) => {
                        match fbx.object_index(e.driven) {
                            Some(oi) => {
                                proof {
                                    crate::simple::lemma_object_index_props(before, e@.driven);
                                }
                                let pi_opt = prop_index(&fbx.objects[oi].properties, &e.name);
                                match pi_opt {
                                    Some(pi) => {
                                        proof {
                                            crate::simple::properties::lemma_prop_index_props(
                                                props_view(fbx.objects@[oi as int].properties@),
                                                e@.name,
                                            );
                                        }
                                        if fbx.objects[oi].properties[pi].values.len() >= 1 {
                                            let nv = clone_values_set(
                                                &fbx.objects[oi].properties[pi].values,
                                                0,
                                                fv,
                                            );
                                            set_prop_values(&mut fbx.objects, oi, pi, nv);
                                        }
                                    },
                                    None => {},
                                }
                            },
                            None => {},
                        }
                    },
                    None => {},
                }
                proof {
                    assert(objs_view(fbx.objects@) == spec_apply_driven_edge(
                        before,
                        ev[k as int],
                        frame,
                    ));
                }
                k = k + 1;
            }
            proof {
                assert(ev.skip(k as int) =~= Seq::<DrivenPropertyView>::empty());
                assert(objs_view(fbx.objects@) == spec_apply_driven(a0, ev, frame));
            }

            let ghost b0 = objs_view(fbx.objects@);
            let edges2 = fbx.driving_properties_of(n);
            let ghost ev2 = edges2.deep_view();
            let mut m: usize = 0;
            proof {
                assert(ev2.skip(0) =~= ev2);
            }
            while m < edges2.len()
                invariant
                    m <= ev2.len(),
                    edges2.deep_view() == ev2,
                    edges2@.len() == ev2.len(),
                    cs == conns_view(fbx.connections@),
                    spec_apply_driving(b0, n, ev2) == spec_apply_driving(
                        objs_view(fbx.objects@),
                        n,
                        ev2.skip(m as int),
                    ),
                decreases ev2.len() - m,
            {
                proof {
                    lemma_apply_driving_step(objs_view(fbx.objects@), n, ev2, m as int);
                    assert(ev2[m as int] == edges2@[m as int]@);
                }
                let ghost before = objs_view(fbx.objects@);
                let e = &edges2[m];
                match fbx.object_index(n) {
                    Some(ni) => {
                        proof {
                            crate::simple::lemma_object_index_props(before, n);
                        }
                        match fbx.object_index(e.driven) {
                            Some(oi) => {
                                proof {
                                    crate::simple::lemma_object_index_props(before, e@.driven);
                                }
                                let pi_opt = prop_index(&fbx.objects[oi].properties, &e.name);
                                match pi_opt {
                                    Some(pi) => {
                                        proof {
                                            crate::simple::properties::lemma_prop_index_props(
                                                props_view(fbx.objects@[oi as int].properties@),
                                                e@.name,
                                            );
                                        }
                                        let nv = clone_values_overwrite(
                                            &fbx.objects[oi].properties[pi].values,
                                            &fbx.objects[ni].properties,
                                        );
                                        set_prop_values(&mut fbx.objects, oi, pi, nv);
                                    },
                                    None => {},
                                }
                            },
                            None => {},
                        }
                    },
                    None => {},
                }
                proof {
                    assert(objs_view(fbx.objects@) == spec_apply_driving_edge(
                        before,
                        n,
                        ev2[m as int],
                    ));
                }
                m = m + 1;
            }
            proof {
                assert(ev2.skip(m as int) =~= Seq::<DrivenPropertyView>::empty());
                assert(objs_view(fbx.objects@) == spec_eval_node(a0, cs, n, frame));
            }
            i = i + 1;
        }
        proof {
            assert(nodes.skip(i as int) =~= Seq::<i64>::empty());
        }
    }
}

/// Two arenas whose objects carry the same ids index identically.
proof fn lemma_object_index_same(a: Seq<ObjectView>, b: Seq<ObjectView>, id: i64)
    requires
        a.len() == b.len(),
        forall|j: int| 0 <= j < a.len() ==> (#[trigger] a[j]).id == b[j].id,
    ensures
        spec_object_index(a, id) == spec_object_index(b, id),
    decreases a.len(),
{
    if a.len() > 0 && a[0].id != id {
        assert(forall|j: int|
            0 <= j < a.drop_first().len() ==> (#[trigger] a.drop_first()[j]).id
                == b.drop_first()[j].id);
        lemma_object_index_same(a.drop_first(), b.drop_first(), id);
    }
}

/// Two property stores whose properties carry the same names index
/// identically.
proof fn lemma_prop_index_same(a: Seq<PropertyView>, b: Seq<PropertyView>, name: Seq<char>)
    requires
        a.len() == b.len(),
        forall|j: int| 0 <= j < a.len() ==> (#[trigger] a[j]).name == b[j].name,
    ensures
        spec_prop_index(a, name) == spec_prop_index(b, name),
    decreases a.len(),
{
    if a.len() > 0 && a[0].name != name {
        assert(forall|j: int|
            0 <= j < a.drop_first().len() ==> (#[trigger] a.drop_first()[j]).name
                == b.drop_first()[j].name);
        lemma_prop_index_same(a.drop_first(), b.drop_first(), name);
    }
}

/// Baking one driven edge is idempotent: the curve value it writes depends
/// only on the driver's curve data, which no property write can touch, so
/// baking the same edge a second time stores the value it already stored
/// and changes nothing. This is the write-absorption at the heart of the
/// evaluator's per-frame idempotence.
pub proof fn lemma_apply_driven_edge_idempotent(
    objs: Seq<ObjectView>,
    e: DrivenPropertyView,
    frame: i32,
)
    ensures
        spec_apply_driven_edge(spec_apply_driven_edge(objs, e, frame), e, frame)
            == spec_apply_driven_edge(objs, e, frame),
{
    let s1 = spec_apply_driven_edge(objs, e, frame);
    match spec_curve_of(objs, e.driver) {
        None => {
            assert(s1 == objs);
        },
        Some(c) => {
            crate::simple::lemma_object_index_props(objs, e.driver);
            let di = spec_object_index(objs, e.driver)->0;
            match spec_object_index(objs, e.driven) {
                None => {
                    assert(s1 == objs);
                },
                Some(oi) => {
                    crate::simple::lemma_object_index_props(objs, e.driven);
                    match spec_prop_index(objs[oi].properties, e.name) {
                        None => {
                            assert(s1 == objs);
                        },
                        Some(pi) => {
                            crate::simple::properties::lemma_prop_index_props(
                                objs[oi].properties,
                                e.name,
                            );
                            if 0 <= frame < c.values.len() && objs[oi].properties[pi].values.len()
                                >= 1 {
                                let cv = c.values[frame as int];
                                let vals2 = objs[oi].properties[pi].values.update(0, cv);
                                assert(s1 == spec_set_prop_values(objs, oi, pi, vals2));
                                // The write keeps every id, class and property
                                // name, and every value-list length.
                                assert(s1.len() == objs.len());
                                assert(forall|j: int|
                                    0 <= j < s1.len() ==> (#[trigger] s1[j]).id == objs[j].id);
                                assert(forall|j: int|
                                    0 <= j < s1.len() ==> (#[trigger] s1[j]).class
                                        == objs[j].class);
                                assert(s1[oi].properties.len() == objs[oi].properties.len());
                                assert(forall|j: int|
                                    0 <= j < s1[oi].properties.len() ==> (
                                    #[trigger] s1[oi].properties[j]).name
                                        == objs[oi].properties[j].name);
                                // The driver still reads as the same curve.
                                lemma_object_index_same(s1, objs, e.driver);
                                assert(s1[di].class == objs[di].class);
                                assert(spec_curve_of(s1, e.driver) == Some(c));
                                // The target still indexes identically.
                                lemma_object_index_same(s1, objs, e.driven);
                                lemma_prop_index_same(
                                    s1[oi].properties,
                                    objs[oi].properties,
                                    e.name,
                                );
                                assert(spec_prop_index(s1[oi].properties, e.name) == Some(pi));
                                assert(s1[oi].properties[pi].values == vals2);
                                assert(vals2.len() >= 1);
                                // The second write stores what is already there.
                                let vals3 = s1[oi].properties[pi].values.update(0, cv);
                                assert(vals3 =~= vals2);
                                let s2 = spec_set_prop_values(s1, oi, pi, vals3);
                                assert(s1[oi].properties.update(
                                    pi,
                                    PropertyView {
                                        name: s1[oi].properties[pi].name,
                                        values: vals3,
                                    },
                                ) =~= s1[oi].properties);
                                assert(ObjectView {
                                    properties: s1[oi].properties.update(
                                        pi,
                                        PropertyView {
                                            name: s1[oi].properties[pi].name,
                                            values: vals3,
                                        },
                                    ),
                                    ..s1[oi]
                                } == s1[oi]);
                                assert(s2 =~= s1);
                                assert(spec_apply_driven_edge(s1, e, frame) == s2);
                            } else {
                                assert(s1 == objs);
                            }
                        },
                    }
                },
            }
        },
    }
}

/// One baked edge keeps every object's id and class (it writes property
/// values only).
proof fn lemma_apply_driven_edge_skeleton(objs: Seq<ObjectView>, e: DrivenPropertyView, frame: i32)
    ensures
        ({
            let r = spec_apply_driven_edge(objs, e, frame);
            &&& r.len() == objs.len()
            &&& forall|j: int| 0 <= j < r.len() ==> (#[trigger] r[j]).id == objs[j].id
            &&& forall|j: int| 0 <= j < r.len() ==> (#[trigger] r[j]).class == objs[j].class
        }),
{
    match spec_curve_of(objs, e.driver) {
        None => {},
        Some(_) => {
            match spec_object_index(objs, e.driven) {
                None => {},
                Some(oi) => {
                    crate::simple::lemma_object_index_props(objs, e.driven);
                },
            }
        },
    }
}

/// One propagated edge keeps every object's id and class.
proof fn lemma_apply_driving_edge_skeleton(objs: Seq<ObjectView>, n: i64, e: DrivenPropertyView)
    ensures
        ({
            let r = spec_apply_driving_edge(objs, n, e);
            &&& r.len() == objs.len()
            &&& forall|j: int| 0 <= j < r.len() ==> (#[trigger] r[j]).id == objs[j].id
            &&& forall|j: int| 0 <= j < r.len() ==> (#[trigger] r[j]).class == objs[j].class
        }),
{
    match spec_object_index(objs, n) {
        None => {},
        Some(_) => {
            match spec_object_index(objs, e.driven) {
                None => {},
                Some(oi) => {
                    crate::simple::lemma_object_index_props(objs, e.driven);
                },
            }
        },
    }
}

/// A whole baked-edge fold keeps ids and classes.
proof fn lemma_apply_driven_skeleton(objs: Seq<ObjectView>, edges: Seq<DrivenPropertyView>, frame: i32)
    ensures
        ({
            let r = spec_apply_driven(objs, edges, frame);
            &&& r.len() == objs.len()
            &&& forall|j: int| 0 <= j < r.len() ==> (#[trigger] r[j]).id == objs[j].id
            &&& forall|j: int| 0 <= j < r.len() ==> (#[trigger] r[j]).class == objs[j].class
        }),
    decreases edges.len(),
{
    if edges.len() > 0 {
        lemma_apply_driven_edge_skeleton(objs, edges[0], frame);
        lemma_apply_driven_skeleton(spec_apply_driven_edge(objs, edges[0], frame), edges.drop_first(), frame);
    }
}

/// A whole propagated-edge fold keeps ids and classes.
proof fn lemma_apply_driving_skeleton(objs: Seq<ObjectView>, n: i64, edges: Seq<DrivenPropertyView>)
    ensures
        ({
            let r = spec_apply_driving(objs, n, edges);
            &&& r.len() == objs.len()
            &&& forall|j: int| 0 <= j < r.len() ==> (#[trigger] r[j]).id == objs[j].id
            &&& forall|j: int| 0 <= j < r.len() ==> (#[trigger] r[j]).class == objs[j].class
        }),
    decreases edges.len(),
{
    if edges.len() > 0 {
        lemma_apply_driving_edge_skeleton(objs, n, edges[0]);
        lemma_apply_driving_skeleton(spec_apply_driving_edge(objs, n, edges[0]), n, edges.drop_first());
    }
}

/// A whole evaluation keeps ids and classes: the evaluator writes property
/// values only.
pub proof fn lemma_evaluate_skeleton(
    objs: Seq<ObjectView>,
    cs: Seq<ConnectionView>,
    nodes: Seq<i64>,
    frame: i32,
)
    ensures
        ({
            let r = spec_evaluate(objs, cs, nodes, frame);
            &&& r.len() == objs.len()
            &&& forall|j: int| 0 <= j < r.len() ==> (#[trigger] r[j]).id == objs[j].id
            &&& forall|j: int| 0 <= j < r.len() ==> (#[trigger] r[j]).class == objs[j].class
        }),
    decreases nodes.len(),
{
    if nodes.len() > 0 {
        let s1 = spec_apply_driven(objs, spec_driven_props(cs, nodes[0]), frame);
        lemma_apply_driven_skeleton(objs, spec_driven_props(cs, nodes[0]), frame);
        lemma_apply_driving_skeleton(s1, nodes[0], spec_driving_props(cs, nodes[0]));
        lemma_evaluate_skeleton(spec_eval_node(objs, cs, nodes[0], frame), cs, nodes.drop_first(), frame);
    }
}

/// Two arenas with the same ids and classes report the same frame count.
proof fn lemma_frame_count_same(
    a: Seq<ObjectView>,
    b: Seq<ObjectView>,
    cs: Seq<ConnectionView>,
    nodes: Seq<i64>,
)
    requires
        a.len() == b.len(),
        forall|j: int| 0 <= j < a.len() ==> (#[trigger] a[j]).id == b[j].id,
        forall|j: int| 0 <= j < a.len() ==> (#[trigger] a[j]).class == b[j].class,
    ensures
        spec_frame_count(GraphView { objects: a, connections: cs }, nodes) == spec_frame_count(
            GraphView { objects: b, connections: cs },
            nodes,
        ),
    decreases nodes.len(),
{
    if nodes.len() > 0 {
        let edges = spec_driven_props(cs, nodes[0]);
        if edges.len() > 0 {
            lemma_object_index_same(a, b, edges[0].driver);
            match spec_object_index(a, edges[0].driver) {
                Some(i) => {
                    crate::simple::lemma_object_index_props(a, edges[0].driver);
                },
                None => {},
            }
        } else {
            lemma_frame_count_same(a, b, cs, nodes.drop_first());
        }
    }
}

/// Baking any frame never changes the reported frame count: the evaluator
/// writes property values only, and the frame count is read off the curve
/// objects' class data, which no property write can touch. In particular a
/// later frame sees the same frame count whatever earlier frames were
/// baked.
pub proof fn lemma_frame_count_stable_under_evaluate(
    objs: Seq<ObjectView>,
    cs: Seq<ConnectionView>,
    eval_nodes: Seq<i64>,
    nodes: Seq<i64>,
    frame: i32,
)
    ensures
        spec_frame_count(
            GraphView { objects: spec_evaluate(objs, cs, eval_nodes, frame), connections: cs },
            nodes,
        ) == spec_frame_count(GraphView { objects: objs, connections: cs }, nodes),
{
    lemma_evaluate_skeleton(objs, cs, eval_nodes, frame);
    lemma_frame_count_same(spec_evaluate(objs, cs, eval_nodes, frame), objs, cs, nodes);
}

} // verus!
