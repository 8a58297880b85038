//! The typed object graph: objects in an arena keyed by integer id, plus one
//! ordered edge list holding both hierarchy and property-drive connections,
//! with the queries the rest of the pipeline runs over them.

pub mod animation;
pub mod geometry;
pub mod model;
pub mod object;
pub mod properties;

use vstd::prelude::*;

use crate::error::Error;
use crate::node::{spec_find_child, Node, RawFbx};
use crate::simple::object::{
    spec_class_name, spec_object_from_node, ObjOutcome, Object, ObjectType, ObjectView,
};
use crate::value::{spec_get_i64, ValueView};

pub use self::animation::AnimationCurve;
pub use self::geometry::Geometry;
pub use self::model::{Model, ModelProperties};
pub use self::properties::{Properties, Property};

verus! {

/// Integer key of an object; 0 is reserved for the virtual root.
pub type ObjectId = i64;

/// Specification view of a connection.
pub enum ConnectionView {
    ObjectObject(i64, i64),
    ObjectProperty(i64, i64, Seq<char>),
    NotSupported(Seq<char>),
}

/// A directed edge of the graph, laid out (child, parent) for hierarchy
/// edges and (driver, driven, property name) for property-drive edges.
/// Unknown kinds are carried through so they never block a load.
#[derive(Debug)]
pub enum Connection {
    /// Hierarchy: child object to parent object.
    ObjectObject(ObjectId, ObjectId),
    /// Property drive: driver object to a named property of the driven
    /// object.
    ObjectProperty(ObjectId, ObjectId, String),
    /// A connection kind this library does not interpret.
    NotSupported(String),
}

impl View for Connection {
    type V = ConnectionView;

    open spec fn view(&self) -> ConnectionView {
        match self {
            Connection::ObjectObject(c, p) => ConnectionView::ObjectObject(*c, *p),
            Connection::ObjectProperty(driver, driven, name) => ConnectionView::ObjectProperty(
                *driver,
                *driven,
                name@,
            ),
            Connection::NotSupported(t) => ConnectionView::NotSupported(t@),
        }
    }
}

/// The view of an object arena.
pub open spec fn objs_view(os: Seq<Object>) -> Seq<ObjectView> {
    os.map_values(|o: Object| o@)
}

/// The view of an edge list.
pub open spec fn conns_view(cs: Seq<Connection>) -> Seq<ConnectionView> {
    cs.map_values(|c: Connection| c@)
}

/// Specification view of a whole graph.
pub struct GraphView {
    pub objects: Seq<ObjectView>,
    pub connections: Seq<ConnectionView>,
}

/// No two objects share an id.
pub open spec fn graph_ids_unique(objs: Seq<ObjectView>) -> bool {
    forall|i: int, j: int|
        0 <= i < j < objs.len() ==> (#[trigger] objs[i]).id != (#[trigger] objs[j]).id
}

/// The object graph: objects in insertion order, each with a unique id, and
/// every connection in insertion order.
#[derive(Debug)]
pub struct SimpleFbx {
    pub objects: Vec<Object>,
    pub connections: Vec<Connection>,
}

impl View for SimpleFbx {
    type V = GraphView;

    open spec fn view(&self) -> GraphView {
        GraphView { objects: objs_view(self.objects@), connections: conns_view(self.connections@) }
    }
}

/// The ids of all children connected below `parent`, in edge order.
pub open spec fn spec_children_of(cs: Seq<ConnectionView>, parent: i64) -> Seq<i64>
    decreases cs.len(),
{
    if cs.len() == 0 {
        Seq::empty()
    } else {
        let rest = spec_children_of(cs.drop_last(), parent);
        match cs.last() {
            ConnectionView::ObjectObject(c, p) => if p == parent {
                rest.push(c)
            } else {
                rest
            },
            _ => rest,
        }
    }
}

/// The parent recorded by the first hierarchy edge leaving `child`, if any.
pub open spec fn spec_parent_of(cs: Seq<ConnectionView>, child: i64) -> Option<i64>
    decreases cs.len(),
{
    if cs.len() == 0 {
        None
    } else {
        match cs[0] {
            ConnectionView::ObjectObject(c, p) => if c == child {
                Some(p)
            } else {
                spec_parent_of(cs.drop_first(), child)
            },
            _ => spec_parent_of(cs.drop_first(), child),
        }
    }
}

/// Specification view of a property-drive edge, seen from one of its ends.
pub struct DrivenPropertyView {
    pub name: Seq<char>,
    pub driver: i64,
    pub driven: i64,
}

/// A property-drive edge, seen from one of its ends: the driven property's
/// name and both object ids.
#[derive(Debug)]
pub struct DrivenProperty {
    pub name: String,
    pub driver: ObjectId,
    pub driven: ObjectId,
}

impl View for DrivenProperty {
    type V = DrivenPropertyView;

    open spec fn view(&self) -> DrivenPropertyView {
        DrivenPropertyView { name: self.name@, driver: self.driver, driven: self.driven }
    }
}

impl DeepView for DrivenProperty {
    type V = DrivenPropertyView;

    open spec fn deep_view(&self) -> DrivenPropertyView {
        self.view()
    }
}

/// The property-drive edges whose driven side is `driven`, in edge order.
pub open spec fn spec_driven_props(cs: Seq<ConnectionView>, driven: i64) -> Seq<DrivenPropertyView>
    decreases cs.len(),
{
    if cs.len() == 0 {
        Seq::empty()
    } else {
        let rest = spec_driven_props(cs.drop_last(), driven);
        match cs.last() {
            ConnectionView::ObjectProperty(driver, d, name) => if d == driven {
                rest.push(DrivenPropertyView { name, driver, driven })
            } else {
                rest
            },
            _ => rest,
        }
    }
}

/// The property-drive edges whose driver side is `driver`, in edge order.
pub open spec fn spec_driving_props(cs: Seq<ConnectionView>, driver: i64) -> Seq<
    DrivenPropertyView,
>
    decreases cs.len(),
{
    if cs.len() == 0 {
        Seq::empty()
    } else {
        let rest = spec_driving_props(cs.drop_last(), driver);
        match cs.last() {
            ConnectionView::ObjectProperty(dr, driven, name) => if dr == driver {
                rest.push(DrivenPropertyView { name, driver, driven })
            } else {
                rest
            },
            _ => rest,
        }
    }
}

/// The index of the object with the given id, if any.
pub open spec fn spec_object_index(objs: Seq<ObjectView>, id: i64) -> Option<int>
    decreases objs.len(),
{
    if objs.len() == 0 {
        None
    } else if objs[0].id == id {
        Some(0int)
    } else {
        match spec_object_index(objs.drop_first(), id) {
            Some(i) => Some(i + 1),
            None => None,
        }
    }
}

/// The fresh id the arena hands out next: one more than the largest id seen
/// while scanning in insertion order, and at least 1.
pub open spec fn spec_fresh_id(objs: Seq<ObjectView>) -> int
    decreases objs.len(),
{
    if objs.len() == 0 {
        1
    } else {
        let p = spec_fresh_id(objs.drop_last());
        if objs.last().id >= p {
            objs.last().id + 1
        } else {
            p
        }
    }
}

/// What `spec_object_index` returns is a well-formed first match.
pub proof fn lemma_object_index_props(objs: Seq<ObjectView>, id: i64)
    ensures
        match spec_object_index(objs, id) {
            Some(i) => {
                &&& 0 <= i < objs.len()
                &&& objs[i].id == id
                &&& forall|j: int| 0 <= j < i ==> (#[trigger] objs[j]).id != id
            },
            None => forall|j: int| 0 <= j < objs.len() ==> (#[trigger] objs[j]).id != id,
        },
    decreases objs.len(),
{
    if objs.len() > 0 && objs[0].id != id {
        let d = objs.drop_first();
        lemma_object_index_props(d, id);
        match spec_object_index(d, id) {
            Some(i) => {
                assert(d[i] == objs[i + 1]);
                assert forall|j: int| 0 <= j < i + 1 implies (#[trigger] objs[j]).id != id by {
                    if j > 0 {
                        assert(objs[j] == d[j - 1]);
                    }
                }
            },
            None => {
                assert forall|j: int| 0 <= j < objs.len() implies (#[trigger] objs[j]).id != id by {
                    if j > 0 {
                        assert(objs[j] == d[j - 1]);
                    }
                }
            },
        }
    }
}

/// One step of the suffix recursion behind `spec_object_index`.
proof fn lemma_object_index_step(objs: Seq<ObjectView>, id: i64, i: int)
    requires
        0 <= i < objs.len(),
    ensures
        spec_object_index(objs.skip(i), id) == if objs[i].id == id {
            Some(0int)
        } else {
            match spec_object_index(objs.skip(i + 1), id) {
                Some(k) => Some(k + 1),
                None => None::<int>,
            }
        },
{
    assert(objs.skip(i).len() > 0);
    assert(objs.skip(i)[0] == objs[i]);
    assert(objs.skip(i).drop_first() =~= objs.skip(i + 1));
}

/// One step of the suffix recursion behind `spec_parent_of`.
proof fn lemma_parent_of_step(cs: Seq<ConnectionView>, child: i64, i: int)
    requires
        0 <= i < cs.len(),
    ensures
        spec_parent_of(cs.skip(i), child) == match cs[i] {
            ConnectionView::ObjectObject(c, p) => if c == child {
                Some(p)
            } else {
                spec_parent_of(cs.skip(i + 1), child)
            },
            _ => spec_parent_of(cs.skip(i + 1), child),
        },
{
    assert(cs.skip(i).len() > 0);
    assert(cs.skip(i)[0] == cs[i]);
    assert(cs.skip(i).drop_first() =~= cs.skip(i + 1));
}

impl SimpleFbx {
    /// An empty graph.
    pub fn new() -> (r: SimpleFbx)
        ensures
            r@.objects == Seq::<ObjectView>::empty(),
            r@.connections == Seq::<ConnectionView>::empty(),
    {
        let r = SimpleFbx { objects: Vec::new(), connections: Vec::new() };
        proof {
            assert(r@.objects =~= Seq::<ObjectView>::empty());
            assert(r@.connections =~= Seq::<ConnectionView>::empty());
        }
        r
    }

    /// Adds a new object of the given class under a fresh id, named after
    /// the class, with no properties, and returns the id.
    pub fn new_object(&mut self, class: ObjectType) -> (r: ObjectId)
        requires
            forall|i: int|
                0 <= i < old(self)@.objects.len() ==> (#[trigger] old(self)@.objects[i]).id
                    < i64::MAX,
        ensures
            r == spec_fresh_id(old(self)@.objects),
            final(self)@.connections == old(self)@.connections,
            final(self)@.objects == old(self)@.objects.push(
                ObjectView {
                    id: r,
                    name: spec_class_name(class@),
                    properties: Seq::empty(),
                    class: class@,
                },
            ),
            graph_ids_unique(old(self)@.objects) ==> graph_ids_unique(final(self)@.objects),
    {
        let ghost ov = objs_view(self.objects@);
        let mut id: i64 = 1;
        let mut i: usize = 0;
        proof {
            assert(ov.take(0) =~= Seq::<ObjectView>::empty());
            assert(ov == self@.objects);
            assert forall|j: int| 0 <= j < ov.len() implies (#[trigger] ov[j]).id < i64::MAX by {
                assert(self@.objects[j].id < i64::MAX);
            }
        }
        while i < self.objects.len()
            invariant
                i <= self.objects@.len(),
                ov == objs_view(self.objects@),
                ov.len() == self.objects@.len(),
                forall|j: int| 0 <= j < ov.len() ==> ov[j] == self.objects@[j]@,
                forall|j: int| 0 <= j < ov.len() ==> (#[trigger] ov[j]).id < i64::MAX,
                id == spec_fresh_id(ov.take(i as int)),
                1 <= id,
                forall|j: int| 0 <= j < i ==> (#[trigger] ov[j]).id < id,
            decreases self.objects@.len() - i,
        {
            proof {
                assert(ov.take(i as int + 1).drop_last() =~= ov.take(i as int));
                assert(ov.take(i as int + 1).last() == ov[i as int]);
            }
            if self.objects[i].id >= id {
                id = self.objects[i].id + 1;
            }
            i = i + 1;
        }
        proof {
            assert(ov.take(i as int) =~= ov);
        }
        let name = class.class_name();
        let ghost oov = objs_view(self.objects@);
        let obj = Object { id, name, properties: Vec::new(), class };
        let ghost obj_v = obj@;
        self.objects.push(obj);
        proof {
            assert(obj_v.properties =~= Seq::<crate::simple::properties::PropertyView>::empty());
            assert(objs_view(self.objects@) =~= oov.push(obj_v));
        }
        id
    }

    /// Records a hierarchy edge making `child` a child of `parent`.
    pub fn connect_parent_child(&mut self, parent: ObjectId, child: ObjectId)
        ensures
            final(self)@.objects == old(self)@.objects,
            final(self)@.connections == old(self)@.connections.push(
                ConnectionView::ObjectObject(child, parent),
            ),
    {
        let ghost ocv = conns_view(self.connections@);
        self.connections.push(Connection::ObjectObject(child, parent));
        proof {
            assert(conns_view(self.connections@) =~= ocv.push(
                ConnectionView::ObjectObject(child, parent),
            ));
        }
    }

    /// Records a property-drive edge: the named property of `driven` is fed
    /// by `driver`.
    pub fn connect_property_object(&mut self, driven: ObjectId, property: &str, driver: ObjectId)
        ensures
            final(self)@.objects == old(self)@.objects,
            final(self)@.connections == old(self)@.connections.push(
                ConnectionView::ObjectProperty(driver, driven, property@),
            ),
    {
        let ghost ocv = conns_view(self.connections@);
        let name = String::from_str(property);
        self.connections.push(Connection::ObjectProperty(driver, driven, name));
        proof {
            assert(conns_view(self.connections@) =~= ocv.push(
                ConnectionView::ObjectProperty(driver, driven, property@),
            ));
        }
    }

    /// The ids of all objects connected as children of `id`, in edge order.
    pub fn children_of(&self, id: ObjectId) -> (r: Vec<ObjectId>)
        ensures
            r@ == spec_children_of(self@.connections, id),
    {
        let ghost cv = conns_view(self.connections@);
        let mut r: Vec<ObjectId> = Vec::new();
        let mut i: usize = 0;
        proof {
            assert(cv.take(0) =~= Seq::<ConnectionView>::empty());
            assert(r@ =~= Seq::<i64>::empty());
        }
        while i < self.connections.len()
            invariant
                i <= self.connections@.len(),
                cv == conns_view(self.connections@),
                cv.len() == self.connections@.len(),
                forall|j: int| 0 <= j < cv.len() ==> cv[j] == self.connections@[j]@,
                r@ == spec_children_of(cv.take(i as int), id),
            decreases self.connections@.len() - i,
        {
            proof {
                assert(cv.take(i as int + 1).drop_last() =~= cv.take(i as int));
                assert(cv.take(i as int + 1).last() == cv[i as int]);
            }
            match &self.connections[i] {
                Connection::ObjectObject(c, p) => {
                    if *p == id {
                        r.push(*c);
                    }
                },
                _ => {},
            }
            i = i + 1;
        }
        proof {
            assert(cv.take(i as int) =~= cv);
        }
        r
    }

    /// The parent recorded by the first hierarchy edge leaving `child`, if
    /// any.
    pub fn parent_of(&self, child: ObjectId) -> (r: Option<ObjectId>)
        ensures
            r == spec_parent_of(self@.connections, child),
    {
        let ghost cv = conns_view(self.connections@);
        let mut i: usize = 0;
        proof {
            assert(cv.skip(0) =~= cv);
        }
        while i < self.connections.len()
            invariant
                i <= self.connections@.len(),
                cv == conns_view(self.connections@),
                cv.len() == self.connections@.len(),
                forall|j: int| 0 <= j < cv.len() ==> cv[j] == self.connections@[j]@,
                spec_parent_of(cv, child) == spec_parent_of(cv.skip(i as int), child),
            decreases self.connections@.len() - i,
        {
            proof {
                lemma_parent_of_step(cv, child, i as int);
            }
            match &self.connections[i] {
                Connection::ObjectObject(c, p) => {
                    if *c == child {
                        return Some(*p);
                    }
                },
                _ => {},
            }
            i = i + 1;
        }
        proof {
            assert(cv.skip(i as int) =~= Seq::<ConnectionView>::empty());
        }
        None
    }

    /// The property-drive edges whose driven side is `driven`, in edge
    /// order.
    pub fn driven_properties_of(&self, driven: ObjectId) -> (r: Vec<DrivenProperty>)
        ensures
            r.deep_view() == spec_driven_props(self@.connections, driven),
    {
        let ghost cv = conns_view(self.connections@);
        let mut r: Vec<DrivenProperty> = Vec::new();
        let mut i: usize = 0;
        proof {
            assert(cv.take(0) =~= Seq::<ConnectionView>::empty());
            assert(r.deep_view() =~= Seq::<DrivenPropertyView>::empty());
        }
        while i < self.connections.len()
            invariant
                i <= self.connections@.len(),
                cv == conns_view(self.connections@),
                cv.len() == self.connections@.len(),
                forall|j: int| 0 <= j < cv.len() ==> cv[j] == self.connections@[j]@,
                r.deep_view() == spec_driven_props(cv.take(i as int), driven),
            decreases self.connections@.len() - i,
        {
            proof {
                assert(cv.take(i as int + 1).drop_last() =~= cv.take(i as int));
                assert(cv.take(i as int + 1).last() == cv[i as int]);
            }
            let ghost orv = r.deep_view();
            match &self.connections[i] {
                Connection::ObjectProperty(driver, d, name) => {
                    if *d == driven {
                        let e = DrivenProperty { name: name.clone(), driver: *driver, driven };
                        let ghost ev = e@;
                        r.push(e);
                        proof {
                            assert(r.deep_view() =~= orv.push(ev));
                        }
                    }
                },
                _ => {},
            }
            i = i + 1;
        }
        proof {
            assert(cv.take(i as int) =~= cv);
        }
        r
    }

    /// The property-drive edges whose driver side is `driver`, in edge
    /// order.
    pub fn driving_properties_of(&self, driver: ObjectId) -> (r: Vec<DrivenProperty>)
        ensures
            r.deep_view() == spec_driving_props(self@.connections, driver),
    {
        let ghost cv = conns_view(self.connections@);
        let mut r: Vec<DrivenProperty> = Vec::new();
        let mut i: usize = 0;
        proof {
            assert(cv.take(0) =~= Seq::<ConnectionView>::empty());
            assert(r.deep_view() =~= Seq::<DrivenPropertyView>::empty());
        }
        while i < self.connections.len()
            invariant
                i <= self.connections@.len(),
                cv == conns_view(self.connections@),
                cv.len() == self.connections@.len(),
                forall|j: int| 0 <= j < cv.len() ==> cv[j] == self.connections@[j]@,
                r.deep_view() == spec_driving_props(cv.take(i as int), driver),
            decreases self.connections@.len() - i,
        {
            proof {
                assert(cv.take(i as int + 1).drop_last() =~= cv.take(i as int));
                assert(cv.take(i as int + 1).last() == cv[i as int]);
            }
            let ghost orv = r.deep_view();
            match &self.connections[i] {
                Connection::ObjectProperty(dr, driven, name) => {
                    if *dr == driver {
                        let e = DrivenProperty { name: name.clone(), driver, driven: *driven };
                        let ghost ev = e@;
                        r.push(e);
                        proof {
                            assert(r.deep_view() =~= orv.push(ev));
                        }
                    }
                },
                _ => {},
            }
            i = i + 1;
        }
        proof {
            assert(cv.take(i as int) =~= cv);
        }
        r
    }

    /// The index in the arena of the object with the given id, if any.
    pub fn object_index(&self, id: ObjectId) -> (r: Option<usize>)
        ensures
            match r {
                Some(i) => spec_object_index(self@.objects, id) == Some(i as int),
                None => spec_object_index(self@.objects, id) is None,
            },
    {
        let ghost ov = objs_view(self.objects@);
        let mut i: usize = 0;
        proof {
            assert(ov.skip(0) =~= ov);
        }
        while i < self.objects.len()
            invariant
                i <= self.objects@.len(),
                ov == objs_view(self.objects@),
                ov.len() == self.objects@.len(),
                forall|j: int| 0 <= j < ov.len() ==> ov[j] == self.objects@[j]@,
                spec_object_index(ov, id) == match spec_object_index(ov.skip(i as int), id) {
                    Some(k) => Some(k + i),
                    None => None::<int>,
                },
            decreases self.objects@.len() - i,
        {
            proof {
                lemma_object_index_step(ov, id, i as int);
            }
            if self.objects[i].id == id {
                return Some(i);
            }
            i = i + 1;
        }
        proof {
            assert(ov.skip(i as int) =~= Seq::<ObjectView>::empty());
        }
        None
    }

    /// The object with the given id, if any.
    pub fn get(&self, id: ObjectId) -> (r: Option<&Object>)
        ensures
            match r {
                Some(o) => {
                    &&& spec_object_index(self@.objects, id) is Some
                    &&& o@ == self@.objects[spec_object_index(self@.objects, id)->0]
                },
                None => spec_object_index(self@.objects, id) is None,
            },
    {
        match self.object_index(id) {
            Some(i) => {
                proof {
                    lemma_object_index_props(objs_view(self.objects@), id);
                }
                Some(&self.objects[i])
            },
            None => None,
        }
    }
}

/// Connecting a parent and a child appends exactly that child to the
/// parent's child list and leaves every other object's child list as it
/// was. In particular the new pair appears once more than before, so a
/// repeated connection of the same pair appears twice, never collapsed.
pub proof fn lemma_connect_parent_child(cs: Seq<ConnectionView>, parent: i64, child: i64)
    ensures
        spec_children_of(cs.push(ConnectionView::ObjectObject(child, parent)), parent)
            == spec_children_of(cs, parent).push(child),
        forall|other: i64|
            other != parent ==> #[trigger] spec_children_of(
                cs.push(ConnectionView::ObjectObject(child, parent)),
                other,
            ) == spec_children_of(cs, other),
{
    let cs2 = cs.push(ConnectionView::ObjectObject(child, parent));
    assert(cs2.drop_last() =~= cs);
    assert forall|other: i64|
        other != parent implies #[trigger] spec_children_of(cs2, other) == spec_children_of(
        cs,
        other,
    ) by {
        assert(cs2.drop_last() =~= cs);
    }
}

/// How many times a value occurs in a list.
pub open spec fn count_of(s: Seq<i64>, x: i64) -> nat
    decreases s.len(),
{
    if s.len() == 0 {
        0
    } else {
        count_of(s.drop_last(), x) + if s.last() == x {
            1nat
        } else {
            0nat
        }
    }
}

/// Connecting a parent and a child raises the count of that child in the
/// parent's child list by exactly one: a child connected once for the first
/// time appears exactly once, and duplicates accumulate instead of
/// collapsing.
pub proof fn lemma_connect_counts(cs: Seq<ConnectionView>, parent: i64, child: i64)
    ensures
        count_of(
            spec_children_of(cs.push(ConnectionView::ObjectObject(child, parent)), parent),
            child,
        ) == count_of(spec_children_of(cs, parent), child) + 1,
{
    lemma_connect_parent_child(cs, parent, child);
    let after = spec_children_of(cs.push(ConnectionView::ObjectObject(child, parent)), parent);
    assert(after.drop_last() =~= spec_children_of(cs, parent));
}

/// An object list absorbed one object at a time: a repeated id replaces the
/// earlier object in place, a fresh id appends.
pub open spec fn spec_upsert(objs: Seq<ObjectView>, o: ObjectView) -> Seq<ObjectView> {
    match spec_object_index(objs, o.id) {
        Some(i) => objs.update(i, o),
        None => objs.push(o),
    }
}

/// Absorbing an object keeps ids unique.
pub proof fn lemma_upsert_unique(objs: Seq<ObjectView>, o: ObjectView)
    requires
        graph_ids_unique(objs),
    ensures
        graph_ids_unique(spec_upsert(objs, o)),
{
    lemma_object_index_props(objs, o.id);
    match spec_object_index(objs, o.id) {
        Some(i) => {
            let after = objs.update(i, o);
            assert forall|a: int, b: int|
                0 <= a < b < after.len() implies (#[trigger] after[a]).id != (
            #[trigger] after[b]).id by {
                if a != i && b != i {
                    assert(after[a] == objs[a]);
                    assert(after[b] == objs[b]);
                } else if a == i {
                    assert(after[b] == objs[b]);
                    assert(objs[i].id == o.id);
                } else {
                    assert(after[a] == objs[a]);
                    assert(objs[i].id == o.id);
                }
            }
        },
        None => {
            let after = objs.push(o);
            assert forall|a: int, b: int|
                0 <= a < b < after.len() implies (#[trigger] after[a]).id != (
            #[trigger] after[b]).id by {
                if b < objs.len() {
                    assert(after[a] == objs[a]);
                    assert(after[b] == objs[b]);
                } else {
                    assert(after[a] == objs[a]);
                    assert(after[b] == o);
                }
            }
        },
    }
}

/// How absorbing a whole object section ends.
pub enum ObjsOutcome {
    Found(Seq<ObjectView>),
    BadLayout,
    BadNode,
    BadMapping,
}

/// The object arena read from the children of an `"Objects"` node, absorbed
/// in order into `acc`.
pub open spec fn spec_objects_from(children: Seq<Node>, acc: Seq<ObjectView>) -> ObjsOutcome
    decreases children.len(),
{
    if children.len() == 0 {
        ObjsOutcome::Found(acc)
    } else {
        match spec_object_from_node(children[0]) {
            ObjOutcome::Found(o) => spec_objects_from(children.drop_first(), spec_upsert(acc, o)),
            ObjOutcome::BadLayout => ObjsOutcome::BadLayout,
            ObjOutcome::BadNode => ObjsOutcome::BadNode,
            ObjOutcome::BadMapping => ObjsOutcome::BadMapping,
        }
    }
}

/// One step of the suffix recursion behind `spec_objects_from`.
proof fn lemma_objects_from_step(children: Seq<Node>, acc: Seq<ObjectView>, i: int)
    requires
        0 <= i < children.len(),
    ensures
        spec_objects_from(children.skip(i), acc) == match spec_object_from_node(children[i]) {
            ObjOutcome::Found(o) => spec_objects_from(children.skip(i + 1), spec_upsert(acc, o)),
            ObjOutcome::BadLayout => ObjsOutcome::BadLayout,
            ObjOutcome::BadNode => ObjsOutcome::BadNode,
            ObjOutcome::BadMapping => ObjsOutcome::BadMapping,
        },
{
    assert(children.skip(i).len() > 0);
    assert(children.skip(i)[0] == children[i]);
    assert(children.skip(i).drop_first() =~= children.skip(i + 1));
}

/// The connection read from one row of a `"Connections"` node: hierarchy
/// rows are tagged `"OO"`, property-drive rows `"OP"`, and any other tag is
/// carried through as not supported.
pub open spec fn spec_connection_from_node(n: Node) -> Option<ConnectionView> {
    if n.properties@.len() == 0 {
        None
    } else {
        match n.properties@[0]@ {
            ValueView::Str(s) => if s == "OO"@ {
                if n.properties@.len() >= 3 {
                    match (spec_get_i64(n.properties@[1]@), spec_get_i64(n.properties@[2]@)) {
                        (Some(c), Some(p)) => Some(ConnectionView::ObjectObject(c, p)),
                        _ => None,
                    }
                } else {
                    None
                }
            } else if s == "OP"@ {
                if n.properties@.len() >= 4 {
                    match (spec_get_i64(n.properties@[1]@), spec_get_i64(n.properties@[2]@)) {
                        (Some(driver), Some(driven)) => match n.properties@[3]@ {
                            ValueView::Str(name) => Some(
                                ConnectionView::ObjectProperty(driver, driven, name),
                            ),
                            _ => None,
                        },
                        _ => None,
                    }
                } else {
                    None
                }
            } else {
                Some(ConnectionView::NotSupported(s))
            },
            _ => None,
        }
    }
}

/// The edge list read from the children of a `"Connections"` node, in
/// order.
pub open spec fn spec_connections_from(children: Seq<Node>) -> Option<Seq<ConnectionView>>
    decreases children.len(),
{
    if children.len() == 0 {
        Some(Seq::empty())
    } else {
        match spec_connection_from_node(children[0]) {
            Some(c) => match spec_connections_from(children.drop_first()) {
                Some(rest) => Some(seq![c] + rest),
                None => None,
            },
            None => None,
        }
    }
}

/// One step of the suffix recursion behind `spec_connections_from`.
proof fn lemma_connections_from_step(children: Seq<Node>, i: int)
    requires
        0 <= i < children.len(),
    ensures
        spec_connections_from(children.skip(i)) == match spec_connection_from_node(children[i]) {
            Some(c) => match spec_connections_from(children.skip(i + 1)) {
                Some(rest) => Some(seq![c] + rest),
                None => None::<Seq<ConnectionView>>,
            },
            None => None::<Seq<ConnectionView>>,
        },
{
    assert(children.skip(i).len() > 0);
    assert(children.skip(i)[0] == children[i]);
    assert(children.skip(i).drop_first() =~= children.skip(i + 1));
}

/// How turning a parsed file into a graph ends.
pub enum GraphOutcome {
    Found(GraphView),
    Missing(Seq<char>),
    BadLayout,
    BadNode,
    BadMapping,
}

/// The graph read from a parsed file: its object section absorbed in order,
/// then its connection section.
pub open spec fn spec_from_raw(nodes: Seq<Node>) -> GraphOutcome {
    match spec_find_child(nodes, "Objects"@) {
        None => GraphOutcome::Missing("Objects"@),
        Some(on) => match spec_objects_from(on.children@, Seq::empty()) {
            ObjsOutcome::Found(objs) => match spec_find_child(nodes, "Connections"@) {
                None => GraphOutcome::Missing("Connections"@),
                Some(cn) => match spec_connections_from(cn.children@) {
                    Some(cs) => GraphOutcome::Found(GraphView { objects: objs, connections: cs }),
                    None => GraphOutcome::BadLayout,
                },
            },
            ObjsOutcome::BadLayout => GraphOutcome::BadLayout,
            ObjsOutcome::BadNode => GraphOutcome::BadNode,
            ObjsOutcome::BadMapping => GraphOutcome::BadMapping,
        },
    }
}

/// The first index of the object with the given id in an arena, if any.
fn obj_index_of(objs: &Vec<Object>, id: i64) -> (r: Option<usize>)
    ensures
        match r {
            Some(i) => spec_object_index(objs_view(objs@), id) == Some(i as int),
            None => spec_object_index(objs_view(objs@), id) is None,
        },
{
    let ghost ov = objs_view(objs@);
    let mut i: usize = 0;
    proof {
        assert(ov.skip(0) =~= ov);
    }
    while i < objs.len()
        invariant
            i <= objs@.len(),
            ov == objs_view(objs@),
            ov.len() == objs@.len(),
            forall|j: int| 0 <= j < ov.len() ==> ov[j] == objs@[j]@,
            spec_object_index(ov, id) == match spec_object_index(ov.skip(i as int), id) {
                Some(k) => Some(k + i),
                None => None::<int>,
            },
        decreases objs@.len() - i,
    {
        proof {
            lemma_object_index_step(ov, id, i as int);
        }
        if objs[i].id == id {
            return Some(i);
        }
        i = i + 1;
    }
    proof {
        assert(ov.skip(i as int) =~= Seq::<ObjectView>::empty());
    }
    None
}

/// Absorbs one object into an arena: a repeated id replaces in place, a
/// fresh id appends.
fn upsert(objs: &mut Vec<Object>, o: Object)
    ensures
        objs_view(final(objs)@) == spec_upsert(objs_view(old(objs)@), o@),
{
    let ghost ov = objs_view(objs@);
    let ghost oview = o@;
    match obj_index_of(objs, o.id) {
        Some(i) => {
            proof {
                lemma_object_index_props(ov, o@.id);
            }
            objs.set(i, o);
            proof {
                assert(objs_view(objs@) =~= ov.update(i as int, oview));
            }
        },
        None => {
            objs.push(o);
            proof {
                assert(objs_view(objs@) =~= ov.push(oview));
            }
        },
    }
}

/// Reads one connection row.
fn connection_from_node(n: &Node) -> (r: Result<Connection, Error>)
    ensures
        match r {
            Ok(c) => spec_connection_from_node(*n) == Some(c@),
            Err(Error::WrongNodeLayout(_)) => spec_connection_from_node(*n) is None,
            Err(_) => false,
        },
{
    if n.properties.len() == 0 {
        return Err(Error::WrongNodeLayout(String::from_str("connection row carries no tag")));
    }
    let s = match n.properties[0].get_string() {
        Some(s) => s,
        None => {
            return Err(Error::WrongNodeLayout(String::from_str("connection tag is not text")));
        },
    };
    if crate::node::str_eq(s, "OO") {
        if n.properties.len() < 3 {
            return Err(Error::WrongNodeLayout(String::from_str("hierarchy row is too short")));
        }
        let c = match n.properties[1].get_i64() {
            Some(v) => v,
            None => {
                return Err(Error::WrongNodeLayout(String::from_str(
                    "hierarchy row ids are not integers",
                )));
            },
        };
        let p = match n.properties[2].get_i64() {
            Some(v) => v,
            None => {
                return Err(Error::WrongNodeLayout(String::from_str(
                    "hierarchy row ids are not integers",
                )));
            },
        };
        Ok(Connection::ObjectObject(c, p))
    } else if crate::node::str_eq(s, "OP") {
        if n.properties.len() < 4 {
            return Err(Error::WrongNodeLayout(String::from_str(
                "property-drive row is too short",
            )));
        }
        let driver = match n.properties[1].get_i64() {
            Some(v) => v,
            None => {
                return Err(Error::WrongNodeLayout(String::from_str(
                    "property-drive row ids are not integers",
                )));
            },
        };
        let driven = match n.properties[2].get_i64() {
            Some(v) => v,
            None => {
                return Err(Error::WrongNodeLayout(String::from_str(
                    "property-drive row ids are not integers",
                )));
            },
        };
        let name = match n.properties[3].get_string() {
            Some(nm) => nm.clone(),
            None => {
                return Err(Error::WrongNodeLayout(String::from_str(
                    "property-drive row has no property name",
                )));
            },
        };
        Ok(Connection::ObjectProperty(driver, driven, name))
    } else {
        Ok(Connection::NotSupported(s.clone()))
    }
}

impl SimpleFbx {
    /// Builds the typed graph out of a parsed file: the `"Objects"` section
    /// becomes the arena (later objects with a repeated id replace earlier
    /// ones) and the `"Connections"` section becomes the edge list. Any
    /// structural fault aborts the whole load: no partial graph is returned.
    pub fn from_raw(fbx: &RawFbx) -> (r: Result<SimpleFbx, Error>)
        ensures
            match r {
                Ok(g) => {
                    &&& spec_from_raw(fbx.nodes@) == GraphOutcome::Found(g@)
                    &&& graph_ids_unique(g@.objects)
                },
                Err(Error::MissingRequiredNode(n)) => spec_from_raw(fbx.nodes@) matches
                    GraphOutcome::Missing(m) && m == n@,
                Err(Error::WrongNodeLayout(_)) => spec_from_raw(fbx.nodes@) is BadLayout,
                Err(Error::WrongNode(_, _)) => spec_from_raw(fbx.nodes@) is BadNode,
                Err(Error::UnsupportedMappingType(_)) => spec_from_raw(fbx.nodes@) is BadMapping,
                Err(_) => false,
            },
    {
        let on = match crate::node::find_node(&fbx.nodes, "Objects") {
            Some(n) => n,
            None => {
                return Err(Error::MissingRequiredNode(String::from_str("Objects")));
            },
        };
        let mut objects: Vec<Object> = Vec::new();
        let mut i: usize = 0;
        proof {
            assert(on.children@.skip(0) =~= on.children@);
            assert(objs_view(objects@) =~= Seq::<ObjectView>::empty());
        }
        while i < on.children.len()
            invariant
                i <= on.children@.len(),
                spec_find_child(fbx.nodes@, "Objects"@) == Some(*on),
                graph_ids_unique(objs_view(objects@)),
                spec_objects_from(on.children@, Seq::empty()) == spec_objects_from(
                    on.children@.skip(i as int),
                    objs_view(objects@),
                ),
            decreases on.children@.len() - i,
        {
            proof {
                lemma_objects_from_step(on.children@, objs_view(objects@), i as int);
            }
            let o = match Object::from_node(&on.children[i]) {
                Ok(o) => o,
                Err(e) => {
                    return Err(e);
                },
            };
            proof {
                lemma_upsert_unique(objs_view(objects@), o@);
            }
            upsert(&mut objects, o);
            i = i + 1;
        }
        proof {
            assert(on.children@.skip(i as int) =~= Seq::<Node>::empty());
        }
        let cn = match crate::node::find_node(&fbx.nodes, "Connections") {
            Some(n) => n,
            None => {
                return Err(Error::MissingRequiredNode(String::from_str("Connections")));
            },
        };
        let mut connections: Vec<Connection> = Vec::new();
        let mut i: usize = 0;
        proof {
            assert(cn.children@.skip(0) =~= cn.children@);
            assert(conns_view(connections@) =~= Seq::<ConnectionView>::empty());
        }
        while i < cn.children.len()
            invariant
                i <= cn.children@.len(),
                spec_find_child(fbx.nodes@, "Objects"@) == Some(*on),
                spec_objects_from(on.children@, Seq::empty()) == ObjsOutcome::Found(
                    objs_view(objects@),
                ),
                graph_ids_unique(objs_view(objects@)),
                spec_find_child(fbx.nodes@, "Connections"@) == Some(*cn),
                spec_connections_from(cn.children@) == match spec_connections_from(
                    cn.children@.skip(i as int),
                ) {
                    Some(rest) => Some(conns_view(connections@) + rest),
                    None => None::<Seq<ConnectionView>>,
                },
            decreases cn.children@.len() - i,
        {
            proof {
                lemma_connections_from_step(cn.children@, i as int);
            }
            let c = match connection_from_node(&cn.children[i]) {
                Ok(c) => c,
                Err(e) => {
                    return Err(e);
                },
            };
            let ghost ocv = conns_view(connections@);
            let ghost cview = c@;
            connections.push(c);
            proof {
                assert(conns_view(connections@) =~= ocv.push(cview));
                if spec_connections_from(cn.children@.skip(i as int + 1)) is Some {
                    let rest = spec_connections_from(cn.children@.skip(i as int + 1))->0;
                    assert(ocv + (seq![cview] + rest) =~= conns_view(connections@) + rest);
                }
            }
            i = i + 1;
        }
        proof {
            assert(cn.children@.skip(i as int) =~= Seq::<Node>::empty());
            assert(conns_view(connections@) + Seq::<ConnectionView>::empty() =~= conns_view(
                connections@,
            ));
        }
        Ok(SimpleFbx { objects, connections })
    }
}

} // verus!
