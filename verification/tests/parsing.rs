use soto::error::Error;
use soto::fixed::{V2, V3};
use soto::node::{Node, RawFbx};
use soto::simple::model::ModelProperties;
use soto::simple::object::Object;
use soto::simple::properties::Property;
use soto::simple::{Connection, Geometry, SimpleFbx};
use soto::value::PropValue;

/// The exact Q47.16 reading of a small floating-point value.
fn fx(v: f32) -> i64 {
    ((v as f64) * 65536.0).trunc() as i64
}

#[test]
fn it_reads_model_properties() {
    let expected_translation = [32.4f32, 125.3, -29.1];
    let mut properties: Vec<Property> = Vec::new();
    properties.push(Property {
        name: "Lcl Translation".into(),
        values: expected_translation
            .iter()
            .map(|v| PropValue::F32(v.to_bits()))
            .collect(),
    });

    let properties = ModelProperties::from_generic(&properties);

    assert!(properties.translation.x == fx(expected_translation[0]));
    assert!(properties.translation.y == fx(expected_translation[1]));
    assert!(properties.translation.z == fx(expected_translation[2]));
}

#[test]
fn it_parses_id_and_name() {
    let expected_id = 123454321;
    let expected_name = "Smorgasbord of Alots";

    let obj = Object::from_node(&Node {
        name: "Smorgasbord".into(),
        properties: vec![
            PropValue::I64(expected_id),
            PropValue::Str(expected_name.into()),
        ],
        children: Vec::new(),
    })
    .unwrap();

    assert!(obj.id == expected_id);
    assert!(obj.name == expected_name);
}

#[test]
fn it_parses_properties() {
    let expected_name = "d|X";
    let expected_value = PropValue::F32(1.0f32.to_bits());

    let prop = Property::from_node(&Node {
        name: "P".into(),
        properties: vec![
            PropValue::Str(expected_name.into()),
            PropValue::Str("Number".into()),
            PropValue::Str("".into()),
            PropValue::Str("A".into()),
            expected_value,
        ],
        children: Vec::new(),
    })
    .unwrap();

    assert!(prop.name == expected_name);
    assert!(prop.values.len() == 1);
    assert!(matches!(prop.values[0], PropValue::F32(b) if b == 1.0f32.to_bits()));
}

#[test]
fn it_refuses_invalid_data() {
    let invalid_name_property = Property::from_node(&Node {
        name: "NotAProperty".into(),
        properties: vec![
            PropValue::Str("Blah".into()),
            PropValue::Str("Number".into()),
            PropValue::Str("".into()),
            PropValue::Str("A".into()),
            PropValue::Str("Blah".into()),
        ],
        children: Vec::new(),
    });
    let invalid_length_property = Property::from_node(&Node {
        name: "P".into(),
        properties: vec![PropValue::Str("Blah".into())],
        children: Vec::new(),
    });

    if let Err(Error::WrongNode(_, _)) = invalid_name_property {
    } else {
        assert!(invalid_name_property.is_err(), "Didn't receive an error");
        assert!(false, "Didn't receive right error");
    }

    if let Err(Error::WrongNodeLayout(_)) = invalid_length_property {
    } else {
        assert!(invalid_length_property.is_err(), "Didn't receive an error");
        assert!(false, "Didn't receive right error");
    }
}

#[test]
fn from_raw_requires_both_sections() {
    let missing = SimpleFbx::from_raw(&RawFbx { nodes: Vec::new() });
    assert!(matches!(missing, Err(Error::MissingRequiredNode(_))));

    let ok = SimpleFbx::from_raw(&RawFbx {
        nodes: vec![
            Node { name: "Objects".into(), properties: Vec::new(), children: Vec::new() },
            Node { name: "Connections".into(), properties: Vec::new(), children: Vec::new() },
        ],
    })
    .unwrap();
    assert_eq!(ok.objects.len(), 0);
    assert_eq!(ok.connections.len(), 0);
}

#[test]
fn unknown_connections_do_not_block_loading() {
    let fbx = SimpleFbx::from_raw(&RawFbx {
        nodes: vec![
            Node { name: "Objects".into(), properties: Vec::new(), children: Vec::new() },
            Node {
                name: "Connections".into(),
                properties: Vec::new(),
                children: vec![
                    Node {
                        name: "C".into(),
                        properties: vec![
                            PropValue::Str("PO".into()),
                            PropValue::I64(1),
                            PropValue::I64(2),
                        ],
                        children: Vec::new(),
                    },
                    Node {
                        name: "C".into(),
                        properties: vec![
                            PropValue::Str("OO".into()),
                            PropValue::I64(3),
                            PropValue::I64(4),
                        ],
                        children: Vec::new(),
                    },
                ],
            },
        ],
    })
    .unwrap();
    assert_eq!(fbx.connections.len(), 2);
    assert!(matches!(&fbx.connections[0], Connection::NotSupported(t) if t == "PO"));
    assert!(matches!(&fbx.connections[1], Connection::ObjectObject(3, 4)));
}

#[test]
fn geometry_triangulates_three_index_polygons() {
    let zero3 = V3 { x: 0, y: 0, z: 0 };
    let zero2 = V2 { u: 0, v: 0 };
    let geom = Geometry {
        vertices: vec![zero3; 4],
        polygons: vec![vec![0, 1, 2], vec![1, 2, 3]],
        normals: vec![zero3; 6],
        uvs: vec![zero2; 6],
    };
    let tris = geom.triangles().unwrap();
    assert_eq!(tris.len(), 2);
}

#[test]
fn geometry_refuses_malformed_polygons() {
    let zero3 = V3 { x: 0, y: 0, z: 0 };
    let zero2 = V2 { u: 0, v: 0 };
    let geom = Geometry {
        vertices: vec![zero3; 4],
        polygons: vec![vec![0, 1, 2, 3]],
        normals: vec![zero3; 4],
        uvs: vec![zero2; 4],
    };
    assert!(matches!(geom.triangles(), Err(Error::MalformedPolygon)));
}

#[test]
fn geometry_refuses_unknown_mapping_schemes() {
    // A mesh whose normal layer names a reference scheme this library does
    // not implement.
    let node = Node {
        name: "Geometry".into(),
        properties: vec![
            PropValue::I64(9),
            PropValue::Str("geo".into()),
            PropValue::Str("Mesh".into()),
        ],
        children: vec![
            Node {
                name: "Vertices".into(),
                properties: vec![PropValue::VecF32(vec![0; 9])],
                children: Vec::new(),
            },
            Node {
                name: "PolygonVertexIndex".into(),
                properties: vec![PropValue::VecI32(vec![0, 1, -3])],
                children: Vec::new(),
            },
            Node {
                name: "LayerElementNormal".into(),
                properties: Vec::new(),
                children: vec![
                    Node {
                        name: "Normals".into(),
                        properties: vec![PropValue::VecF32(vec![0; 9])],
                        children: Vec::new(),
                    },
                    Node {
                        name: "ReferenceInformationType".into(),
                        properties: vec![PropValue::Str("ByEdge".into())],
                        children: Vec::new(),
                    },
                ],
            },
        ],
    };
    assert!(matches!(
        Geometry::from_node(&node),
        Err(Error::UnsupportedMappingType(_))
    ));
}

#[test]
fn polygon_sentinels_decode_and_split() {
    let node = Node {
        name: "Geometry".into(),
        properties: vec![
            PropValue::I64(9),
            PropValue::Str("geo".into()),
            PropValue::Str("Mesh".into()),
        ],
        children: vec![
            Node {
                name: "Vertices".into(),
                properties: vec![PropValue::VecF32(vec![0; 12])],
                children: Vec::new(),
            },
            Node {
                name: "PolygonVertexIndex".into(),
                properties: vec![PropValue::VecI32(vec![0, 1, -3, 1, 2, -4])],
                children: Vec::new(),
            },
            Node {
                name: "LayerElementNormal".into(),
                properties: Vec::new(),
                children: vec![
                    Node {
                        name: "Normals".into(),
                        properties: vec![PropValue::VecF32(vec![0; 18])],
                        children: Vec::new(),
                    },
                    Node {
                        name: "ReferenceInformationType".into(),
                        properties: vec![PropValue::Str("Direct".into())],
                        children: Vec::new(),
                    },
                    Node {
                        name: "MappingInformationType".into(),
                        properties: vec![PropValue::Str("ByPolygonVertex".into())],
                        children: Vec::new(),
                    },
                ],
            },
            Node {
                name: "LayerElementUV".into(),
                properties: Vec::new(),
                children: vec![
                    Node {
                        name: "UV".into(),
                        properties: vec![PropValue::VecF32(vec![0; 12])],
                        children: Vec::new(),
                    },
                    Node {
                        name: "ReferenceInformationType".into(),
                        properties: vec![PropValue::Str("Direct".into())],
                        children: Vec::new(),
                    },
                    Node {
                        name: "MappingInformationType".into(),
                        properties: vec![PropValue::Str("ByPolygonVertex".into())],
                        children: Vec::new(),
                    },
                ],
            },
        ],
    };
    let geom = Geometry::from_node(&node).unwrap();
    assert_eq!(geom.polygons, vec![vec![0u32, 1, 2], vec![1u32, 2, 3]]);
    let tris = geom.triangles().unwrap();
    assert_eq!(tris.len(), 2);
}

#[test]
fn repeated_object_ids_replace_in_place() {
    let object_node = |id: i64, name: &str| Node {
        name: "Nonsense".into(),
        properties: vec![PropValue::I64(id), PropValue::Str(name.into())],
        children: Vec::new(),
    };
    let fbx = SimpleFbx::from_raw(&RawFbx {
        nodes: vec![
            Node {
                name: "Objects".into(),
                properties: Vec::new(),
                children: vec![
                    object_node(7, "first"),
                    object_node(8, "other"),
                    object_node(7, "second"),
                ],
            },
            Node { name: "Connections".into(), properties: Vec::new(), children: Vec::new() },
        ],
    })
    .unwrap();
    assert_eq!(fbx.objects.len(), 2);
    assert_eq!(fbx.get(7).unwrap().name, "second");
    assert_eq!(fbx.get(8).unwrap().name, "other");
}
