//! Objects of the scene graph, classified by their node tag.

use vstd::prelude::*;

use crate::error::Error;
use crate::node::{spec_find_child, Node};
use crate::simple::animation::{spec_curve_from_node, AnimationCurve, CurveView};
use crate::simple::geometry::{spec_geometry_from_node, GeomOutcome, Geometry, GeometryView};
use crate::simple::model::Model;
use crate::simple::properties::{props_view, Properties, Property, PropertyView};
use crate::value::{spec_get_i64, ValueView};

verus! {

/// The class of an object: a closed variant, so that every traversal
/// matches exhaustively. Unknown tags are carried through, never dropped.
#[derive(Debug)]
pub enum ObjectType {
    AnimationStack,
    AnimationLayer,
    AnimationCurveNode,
    AnimationCurve(AnimationCurve),
    Geometry(Geometry),
    Model(Model),
    /// Virtual object standing for the root of the file.
    Root,
    /// An object kind this library does not interpret, by its node tag.
    NotSupported(String),
}

/// Specification view of an object class.
pub enum ClassView {
    AnimationStack,
    AnimationLayer,
    AnimationCurveNode,
    AnimationCurve(CurveView),
    Geometry(GeometryView),
    Model(Model),
    Root,
    NotSupported(Seq<char>),
}

impl View for ObjectType {
    type V = ClassView;

    open spec fn view(&self) -> ClassView {
        match self {
            ObjectType::AnimationStack => ClassView::AnimationStack,
            ObjectType::AnimationLayer => ClassView::AnimationLayer,
            ObjectType::AnimationCurveNode => ClassView::AnimationCurveNode,
            ObjectType::AnimationCurve(c) => ClassView::AnimationCurve(c@),
            ObjectType::Geometry(g) => ClassView::Geometry(g@),
            ObjectType::Model(m) => ClassView::Model(*m),
            ObjectType::Root => ClassView::Root,
            ObjectType::NotSupported(t) => ClassView::NotSupported(t@),
        }
    }
}

/// The tag name of a class, as written in the file.
pub open spec fn spec_class_name(c: ClassView) -> Seq<char> {
    match c {
        ClassView::AnimationStack => "AnimationStack"@,
        ClassView::AnimationLayer => "AnimationLayer"@,
        ClassView::AnimationCurveNode => "AnimationCurveNode"@,
        ClassView::AnimationCurve(_) => "AnimationCurve"@,
        ClassView::Geometry(_) => "Geometry"@,
        ClassView::Model(_) => "Model"@,
        ClassView::Root => "Root"@,
        ClassView::NotSupported(t) => t,
    }
}

impl ObjectType {
    /// The tag name of this class, as written in the file.
    pub fn class_name(&self) -> (r: String)
        ensures
            r@ == spec_class_name(self@),
    {
        match self {
            ObjectType::AnimationStack => String::from_str("AnimationStack"),
            ObjectType::AnimationLayer => String::from_str("AnimationLayer"),
            ObjectType::AnimationCurveNode => String::from_str("AnimationCurveNode"),
            ObjectType::AnimationCurve(_) => String::from_str("AnimationCurve"),
            ObjectType::Geometry(_) => String::from_str("Geometry"),
            ObjectType::Model(_) => String::from_str("Model"),
            ObjectType::Root => String::from_str("Root"),
            ObjectType::NotSupported(t) => t.clone(),
        }
    }
}

/// Specification view of an object.
pub struct ObjectView {
    pub id: i64,
    pub name: Seq<char>,
    pub properties: Seq<PropertyView>,
    pub class: ClassView,
}

/// One object of the graph: its id, declared name, ordered property store
/// and class.
#[derive(Debug)]
pub struct Object {
    pub id: i64,
    pub name: String,
    pub properties: Properties,
    /// Contains the type and type-specific data.
    pub class: ObjectType,
}

impl View for Object {
    type V = ObjectView;

    open spec fn view(&self) -> ObjectView {
        ObjectView {
            id: self.id,
            name: self.name@,
            properties: props_view(self.properties@),
            class: self.class@,
        }
    }
}

/// How reading one object out of a generic node ends.
pub enum ObjOutcome {
    Found(ObjectView),
    BadLayout,
    BadNode,
    BadMapping,
}

/// How reading the property list of an object ends.
pub enum PropsOutcome {
    Found(Seq<PropertyView>),
    BadLayout,
    BadNode,
}

/// Reads the `"P"` children of a `"Properties70"` node, in order.
pub open spec fn spec_props_from(children: Seq<Node>) -> PropsOutcome
    decreases children.len(),
{
    if children.len() == 0 {
        PropsOutcome::Found(Seq::empty())
    } else {
        match crate::simple::properties::spec_property_from_node(children[0]) {
            crate::simple::properties::PropOutcome::Found(p) => match spec_props_from(
                children.drop_first(),
            ) {
                PropsOutcome::Found(rest) => PropsOutcome::Found(seq![p] + rest),
                e => e,
            },
            crate::simple::properties::PropOutcome::BadNode => PropsOutcome::BadNode,
            crate::simple::properties::PropOutcome::BadLayout => PropsOutcome::BadLayout,
        }
    }
}

/// The class read for a node tag, with the data the tag calls for.
pub open spec fn spec_class_from_node(node: Node) -> ObjOutcome {
    if node.name@ == "Geometry"@ {
        match spec_geometry_from_node(node) {
            GeomOutcome::Found(g) => ObjOutcome::Found(
                ObjectView { id: 0, name: Seq::empty(), properties: Seq::empty(), class: ClassView::Geometry(g) },
            ),
            GeomOutcome::BadLayout => ObjOutcome::BadLayout,
            GeomOutcome::BadMapping => ObjOutcome::BadMapping,
        }
    } else if node.name@ == "Model"@ {
        ObjOutcome::Found(
            ObjectView { id: 0, name: Seq::empty(), properties: Seq::empty(), class: ClassView::Model(Model {  }) },
        )
    } else if node.name@ == "AnimationStack"@ {
        ObjOutcome::Found(
            ObjectView { id: 0, name: Seq::empty(), properties: Seq::empty(), class: ClassView::AnimationStack },
        )
    } else if node.name@ == "AnimationLayer"@ {
        ObjOutcome::Found(
            ObjectView { id: 0, name: Seq::empty(), properties: Seq::empty(), class: ClassView::AnimationLayer },
        )
    } else if node.name@ == "AnimationCurveNode"@ {
        ObjOutcome::Found(
            ObjectView { id: 0, name: Seq::empty(), properties: Seq::empty(), class: ClassView::AnimationCurveNode },
        )
    } else if node.name@ == "AnimationCurve"@ {
        match spec_curve_from_node(node) {
            Some(c) => ObjOutcome::Found(
                ObjectView { id: 0, name: Seq::empty(), properties: Seq::empty(), class: ClassView::AnimationCurve(c) },
            ),
            None => ObjOutcome::BadLayout,
        }
    } else {
        ObjOutcome::Found(
            ObjectView { id: 0, name: Seq::empty(), properties: Seq::empty(), class: ClassView::NotSupported(node.name@) },
        )
    }
}

/// How reading one object out of a generic node ends: its id and name come
/// first among the payloads, its property store from a `"Properties70"`
/// child, and its class from the node tag.
pub open spec fn spec_object_from_node(node: Node) -> ObjOutcome {
    if node.properties@.len() < 2 {
        ObjOutcome::BadLayout
    } else {
        match spec_get_i64(node.properties@[0]@) {
            None => ObjOutcome::BadLayout,
            Some(id) => match node.properties@[1]@ {
                ValueView::Str(name) => {
                    let props = match spec_find_child(node.children@, "Properties70"@) {
                        None => PropsOutcome::Found(Seq::empty()),
                        Some(pn) => spec_props_from(pn.children@),
                    };
                    match props {
                        PropsOutcome::Found(properties) => match spec_class_from_node(node) {
                            ObjOutcome::Found(c) => ObjOutcome::Found(
                                ObjectView { id, name, properties, class: c.class },
                            ),
                            e => e,
                        },
                        PropsOutcome::BadLayout => ObjOutcome::BadLayout,
                        PropsOutcome::BadNode => ObjOutcome::BadNode,
                    }
                },
                _ => ObjOutcome::BadLayout,
            },
        }
    }
}

impl Object {
    /// The virtual root object, standing for the top of the file.
    pub fn new_root() -> (r: Object)
        ensures
            r@.id == 0,
            r@.name == "Root"@,
            r@.properties == Seq::<PropertyView>::empty(),
            r@.class == ClassView::Root,
    {
        let r = Object {
            id: 0,
            name: String::from_str("Root"),
            properties: Vec::new(),
            class: ObjectType::Root,
        };
        proof {
            assert(r@.properties =~= Seq::<PropertyView>::empty());
        }
        r
    }

    /// Reads one object out of a generic node.
    pub fn from_node(node: &Node) -> (r: Result<Object, Error>)
        ensures
            match r {
                Ok(o) => spec_object_from_node(*node) == ObjOutcome::Found(o@),
                Err(Error::WrongNode(_, _)) => spec_object_from_node(*node) is BadNode,
                Err(Error::WrongNodeLayout(_)) => spec_object_from_node(*node) is BadLayout,
                Err(Error::UnsupportedMappingType(_)) => spec_object_from_node(*node) is BadMapping,
                Err(_) => false,
            },
    {
        if node.properties.len() < 2 {
            return Err(Error::WrongNodeLayout(String::from_str(
                "object node carries no id and name",
            )));
        }
        let id = match node.properties[0].get_i64() {
            Some(id) => id,
            None => {
                return Err(Error::WrongNodeLayout(String::from_str(
                    "object id is not an integer",
                )));
            },
        };
        let name = match node.properties[1].get_string() {
            Some(s) => s.clone(),
            None => {
                return Err(Error::WrongNodeLayout(String::from_str(
                    "object name is not text",
                )));
            },
        };
        let properties: Properties = match node.find_child("Properties70") {
            Some(pn) => {
                match props_from_children(pn) {
                    Ok(ps) => ps,
                    Err(e) => {
                        return Err(e);
                    },
                }
            },
            None => {
                let ps: Properties = Vec::new();
                proof {
                    assert(props_view(ps@) =~= Seq::<PropertyView>::empty());
                }
                ps
            },
        };
        let class: ObjectType = if crate::node::str_eq(&node.name, "Geometry") {
            match Geometry::from_node(node) {
                Ok(g) => ObjectType::Geometry(g),
                Err(e) => {
                    return Err(e);
                },
            }
        } else if crate::node::str_eq(&node.name, "Model") {
            ObjectType::Model(Model::from_node(node))
        } else if crate::node::str_eq(&node.name, "AnimationStack") {
            ObjectType::AnimationStack
        } else if crate::node::str_eq(&node.name, "AnimationLayer") {
            ObjectType::AnimationLayer
        } else if crate::node::str_eq(&node.name, "AnimationCurveNode") {
            ObjectType::AnimationCurveNode
        } else if crate::node::str_eq(&node.name, "AnimationCurve") {
            match AnimationCurve::from_node(node) {
                Ok(c) => ObjectType::AnimationCurve(c),
                Err(e) => {
                    return Err(e);
                },
            }
        } else {
            ObjectType::NotSupported(node.name.clone())
        };
        Ok(Object { id, name, properties, class })
    }
}

/// One step of the suffix recursion behind `spec_props_from`.
proof fn lemma_props_from_step(children: Seq<Node>, i: int)
    requires
        0 <= i < children.len(),
    ensures
        spec_props_from(children.skip(i)) == match crate::simple::properties::spec_property_from_node(
            children[i],
        ) {
            crate::simple::properties::PropOutcome::Found(p) => match spec_props_from(
                children.skip(i + 1),
            ) {
                PropsOutcome::Found(rest) => PropsOutcome::Found(seq![p] + rest),
                e => e,
            },
            crate::simple::properties::PropOutcome::BadNode => PropsOutcome::BadNode,
            crate::simple::properties::PropOutcome::BadLayout => PropsOutcome::BadLayout,
        },
{
    assert(children.skip(i).len() > 0);
    assert(children.skip(i)[0] == children[i]);
    assert(children.skip(i).drop_first() =~= children.skip(i + 1));
}

/// Reads every `"P"` child of a `"Properties70"` node, in order.
fn props_from_children(pn: &Node) -> (r: Result<Properties, Error>)
    ensures
        match r {
            Ok(ps) => spec_props_from(pn.children@) == PropsOutcome::Found(props_view(ps@)),
            Err(Error::WrongNode(_, _)) => spec_props_from(pn.children@) is BadNode,
            Err(Error::WrongNodeLayout(_)) => spec_props_from(pn.children@) is BadLayout,
            Err(_) => false,
        },
{
    let mut ps: Properties = Vec::new();
    let mut i: usize = 0;
    proof {
        assert(pn.children@.skip(0) =~= pn.children@);
        assert(props_view(ps@) =~= Seq::<PropertyView>::empty());
    }
    while i < pn.children.len()
        invariant
            i <= pn.children@.len(),
            spec_props_from(pn.children@) == match spec_props_from(pn.children@.skip(i as int)) {
                PropsOutcome::Found(rest) => PropsOutcome::Found(props_view(ps@) + rest),
                e => e,
            },
        decreases pn.children@.len() - i,
    {
        proof {
            lemma_props_from_step(pn.children@, i as int);
        }
        let p = match Property::from_node(&pn.children[i]) {
            Ok(p) => p,
            Err(e) => {
                return Err(e);
            },
        };
        let ghost opv = props_view(ps@);
        let ghost pview = p@;
        ps.push(p);
        proof {
            assert(props_view(ps@) =~= opv.push(pview));
            if spec_props_from(pn.children@.skip(i as int + 1)) is Found {
                let rest = spec_props_from(pn.children@.skip(i as int + 1))->Found_0;
                assert(opv + (seq![pview] + rest) =~= props_view(ps@) + rest);
            }
        }
        i = i + 1;
    }
    proof {
        assert(pn.children@.skip(i as int) =~= Seq::<Node>::empty());
        assert(props_view(ps@) + Seq::<PropertyView>::empty() =~= props_view(ps@));
    }
    Ok(ps)
}

} // verus!
