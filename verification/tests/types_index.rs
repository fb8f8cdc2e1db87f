use selia::db::db::{DBInner, DB};
use selia::index::indexing::{field_index_value, index_entries, Index, IndexConstraints, IndexFile, JsonField, TypeBasedIndex};
use selia::objects::objects::ObjectType;
use selia::objects::property::PropertyFile;
use selia::objects::relationship::RelationshipFile;
use selia::objects::vertex::{FileVertex, Vertex, VertexFile};
use selia::types::type_management::{Constraints, IndexAbleType, IndexType, TypeFile, TypeRef};

fn fields(names: &[&str]) -> Constraints {
    Constraints { required_fields: names.iter().map(|s| s.to_string()).collect() }
}

fn db_with_types() -> DB {
    let f_tp = TypeFile::new(vec![0u8; 66560]).unwrap();
    DB::new(DBInner::new(
        RelationshipFile::new(vec![]),
        VertexFile::new(vec![]),
        PropertyFile::new(vec![]),
        f_tp,
    ))
}

#[test]
fn constraints_encoding() {
    let c = fields(&["name", "age"]);
    assert_eq!(c.to_bytes(), b"name\0age\0\0".to_vec());
    let back = Constraints::from_bytes(b"name\0age\0\0".to_vec()).unwrap();
    assert_eq!(back.required_fields, vec!["name".to_string(), "age".to_string()]);
    let none = Constraints::from_bytes(vec![0]).unwrap();
    assert!(none.required_fields.is_empty());
    let cut = Constraints::from_bytes(b"a\0\0b\0".to_vec()).unwrap();
    assert_eq!(cut.required_fields, vec!["a".to_string()]);
    let unterminated = Constraints::from_bytes(b"x".to_vec()).unwrap();
    assert_eq!(unterminated.required_fields, vec!["x".to_string()]);
}

#[test]
fn type_ref_encoding() {
    let tr = TypeRef::new("Person".to_string(), Some(fields(&["name"])), None);
    let bytes = tr.to_bytes(0x01020304, 0x0506);
    assert_eq!(&bytes[0..6], b"Person");
    assert!(bytes[6..122].iter().all(|b| *b == 0));
    assert_eq!(&bytes[122..128], &[6, 5, 4, 3, 2, 1]);
    let back = TypeRef::from_bytes(bytes).unwrap();
    assert_eq!(back.typename, "Person");
    assert!(back.constraints.is_none());
    assert_eq!(back.constraints_info, Some((0x01020304, 0x0506)));
}

#[test]
fn type_ref_with_invalid_name() {
    let mut raw = [0u8; 128];
    raw[0] = 0xff;
    let e = TypeRef::from_bytes(raw).unwrap_err();
    assert_eq!(e, "Failed to get type name (utf8 String) from raw_bytes");
}

#[test]
fn type_file_needs_the_count() {
    assert_eq!(TypeFile::new(vec![0u8; 27]).unwrap_err(), "failed to fill whole buffer");
    let mut data = vec![0u8; 40];
    data[24] = 3;
    assert_eq!(TypeFile::new(data).unwrap().mr_id, 3);
}

#[test]
fn add_type_then_read_it() {
    let mut f = TypeFile::new(vec![0u8; 66560]).unwrap();
    f.add_type("Person", fields(&["name", "age"])).unwrap();
    assert_eq!(f.mr_id, 1);
    assert_eq!(&f.data[24..28], &[1, 0, 0, 0]);
    let t = f.get_type(0).unwrap();
    assert_eq!(t.typename, "Person");
    let info = t.constraints_info.unwrap();
    assert_eq!(info, (66560, 10));
    let c = f.get_constraints(info).unwrap();
    assert_eq!(c.required_fields, vec!["name".to_string(), "age".to_string()]);
    let (found, id) = f.find_type_name("Person").unwrap();
    assert_eq!(found.typename, "Person");
    assert_eq!(id, 0);
    assert!(f.find_type_name("Animal").is_none());
}

#[test]
fn add_type_refuses_a_stored_name() {
    let mut f = TypeFile::new(vec![0u8; 66560]).unwrap();
    f.add_type("Person", fields(&[])).unwrap();
    let e = f.add_type("Person", fields(&["x"])).unwrap_err();
    assert_eq!(e, "Type '{name}' already exists");
    assert_eq!(f.mr_id, 1);
}

#[test]
fn get_type_past_the_end() {
    let f = TypeFile::new(vec![0u8; 100]).unwrap();
    assert_eq!(f.get_type(0).unwrap_err(), "IO-Error: failed to fill whole buffer");
    assert_eq!(f.get_constraints((90, 20)).unwrap_err(), "IO-Error: failed to fill whole buffer");
}

#[test]
fn db_type_lookups() {
    let mut db = db_with_types();
    assert_eq!(db.add_type("LOVES", fields(&["since"])).unwrap(), 0);
    assert_eq!(db.add_type("Person", fields(&["name"])).unwrap(), 1);
    let e = db.add_type("LOVES", fields(&[])).unwrap_err();
    assert_eq!(e, "Failed to add type: Type '{name}' already exists");
    let full = db.get_type_full(1).unwrap();
    assert_eq!(full.typename, "Person");
    assert_eq!(full.constraints.unwrap().required_fields, vec!["name".to_string()]);
    let plain = db.get_type(0).unwrap();
    assert!(plain.constraints.is_none());
    let (t, id) = db.get_type_by_str_with_id("Person").unwrap();
    assert_eq!(t.typename, "Person");
    assert_eq!(id, 0);
    assert_eq!(db.get_type_id_by_str("LOVES").unwrap(), 0);
    assert_eq!(db.get_type_by_str("Car").unwrap_err(), "Type Car does not exist");
    let c = db.get_constraints(plain.constraints_info.unwrap()).unwrap();
    assert_eq!(c.required_fields, vec!["since".to_string()]);
}

fn vertex(id: u32) -> Vertex {
    Vertex::new(id, FileVertex::new(true, None, None))
}

#[test]
fn index_build_and_get() {
    let entries = vec![
        (IndexAbleType::STRING("Malik".to_string()), vertex(3)),
        (IndexAbleType::STRING("Delcos".to_string()), vertex(4)),
        (IndexAbleType::STRING("Malik".to_string()), vertex(5)),
    ];
    let idx = Index::build(entries, IndexConstraints::new(false, false, false), IndexType::STRING).unwrap();
    assert!(idx.variable_len);
    assert_eq!(idx.get(IndexAbleType::STRING("Malik".to_string())).unwrap(), Some(5));
    assert_eq!(idx.get(IndexAbleType::STRING("Delcos".to_string())).unwrap(), Some(4));
    assert_eq!(idx.get(IndexAbleType::STRING("Nobody".to_string())).unwrap(), None);
    let e = idx.get(IndexAbleType::U64(42)).unwrap_err();
    assert_eq!(e, "Expected index type STRING, but got value 42 which is of type U64");
}

#[test]
fn number_index() {
    let entries = vec![
        (IndexAbleType::U64(7), vertex(1)),
        (IndexAbleType::U64(8), vertex(2)),
    ];
    let idx = Index::build(entries, IndexConstraints::new(true, true, false), IndexType::U64).unwrap();
    assert!(!idx.variable_len);
    assert_eq!(idx.get(IndexAbleType::U64(8)).unwrap(), Some(2));
    assert_eq!(idx.get(IndexAbleType::U64(9)).unwrap(), None);
    let e = idx.get(IndexAbleType::STRING("x".to_string())).unwrap_err();
    assert_eq!(e, "Expected index type U64, but got value x which is of type STRING");
}

#[test]
fn invalid_index_type() {
    let e = Index::build(vec![], IndexConstraints::new(false, false, false), IndexType::INVALIDTYPE).unwrap_err();
    assert_eq!(e, "Found invalid type. Could not build index");
}

#[test]
fn kind_names() {
    assert_eq!(TypeBasedIndex::STRING(vec![]).type_to_str(), "STRING");
    assert_eq!(TypeBasedIndex::U64(std::collections::BTreeMap::new()).type_to_str(), "U64");
    assert_eq!(IndexAbleType::U64(1).type_to_str(), "U64");
}

#[test]
fn find_node_through_an_index() {
    let mut db = db_with_types();
    db.add_type("Person", fields(&["name"])).unwrap();
    let entries = vec![(IndexAbleType::STRING("Malik".to_string()), vertex(6))];
    let idx = Index::build(entries, IndexConstraints::new(false, false, false), IndexType::STRING).unwrap();
    db.db.indices.push(IndexFile { typename: "Person".to_string(), property_name: "name".to_string(), idx });
    let v = db.find_node_id_indexed("Person", "name", IndexAbleType::STRING("Malik".to_string())).unwrap();
    assert_eq!(v, 6);
    let e = db.find_node_id_indexed("Person", "age", IndexAbleType::U64(1)).unwrap_err();
    assert_eq!(e, "Field age for type Person does not exist or is not indexed.");
    let e = db.find_node_id_indexed("Car", "name", IndexAbleType::U64(1)).unwrap_err();
    assert_eq!(e, "Type Car does not exist");
    let e = db.find_node_id_indexed("Person", "name", IndexAbleType::U64(1)).unwrap_err();
    assert_eq!(e, "Expected index type STRING, but got value 1 which is of type U64");
}

#[test]
fn index_entries_from_property_texts() {
    let vs = vec![vertex(0), vertex(1), vertex(2), vertex(3)];
    let types = vec![0, 0, 1, 0];
    let props = vec![
        r#"{"name": "Malik", "age": 20}"#.to_string(),
        r#"{"age": 3}"#.to_string(),
        r#"{"name": "Other"}"#.to_string(),
        r#"{"name": "Delcos"}"#.to_string(),
    ];
    let es = index_entries(&vs, &types, &props, 0, "name", IndexType::STRING).unwrap();
    assert_eq!(es.len(), 2);
    assert!(matches!(&es[0].0, IndexAbleType::STRING(s) if s == "Malik"));
    assert_eq!(es[0].1.id, 0);
    assert!(matches!(&es[1].0, IndexAbleType::STRING(s) if s == "Delcos"));
    assert_eq!(es[1].1.id, 3);
    let es = index_entries(&vs, &types, &props, 0, "age", IndexType::U64).unwrap();
    assert_eq!(es.len(), 2);
    assert!(matches!(es[1].0, IndexAbleType::U64(3)));
    let e = index_entries(&vs, &types, &props, 0, "age", IndexType::STRING).unwrap_err();
    assert_eq!(e, "Value type does not match expected type for index.");
    let one = |text: &str| vec![text.to_string(), "{}".to_string(), "{}".to_string(), "{}".to_string()];
    let not_object = "Properties of a vertex are not a JSON object.";
    let wrong_kind = "Value type does not match expected type for index.";
    for text in ["not json", "[1]", "\"name\"", "7"] {
        assert_eq!(index_entries(&vs, &types, &one(text), 0, "name", IndexType::STRING).unwrap_err(), not_object);
    }
    for text in [
        r#"{"name": true}"#,
        r#"{"name": null}"#,
        r#"{"name": [1]}"#,
        r#"{"name": {"a": 1}}"#,
        r#"{"name": 4}"#,
    ] {
        assert_eq!(index_entries(&vs, &types, &one(text), 0, "name", IndexType::STRING).unwrap_err(), wrong_kind);
    }
    for text in [r#"{"name": -1}"#, r#"{"name": 1.5}"#, r#"{"name": "4"}"#, r#"{"name": false}"#] {
        assert_eq!(index_entries(&vs, &types, &one(text), 0, "name", IndexType::U64).unwrap_err(), wrong_kind);
    }
    assert_eq!(index_entries(&vs, &types, &one("{}"), 0, "name", IndexType::STRING).unwrap().len(), 0);
    let es = index_entries(&vs, &types, &one(r#"{"name": 18446744073709551615}"#), 0, "name", IndexType::U64).unwrap();
    assert!(matches!(es[0].0, IndexAbleType::U64(u64::MAX)));
    // a vertex of another type is not read at all
    let other = vec!["{}".to_string(), "{}".to_string(), "not json".to_string(), "{}".to_string()];
    assert_eq!(index_entries(&vs, &types, &other, 0, "name", IndexType::STRING).unwrap().len(), 0);
}

#[test]
fn field_index_value_by_kind() {
    let s = || JsonField::Str("x".to_string());
    assert!(matches!(field_index_value(s(), IndexType::STRING), Ok(Some(IndexAbleType::STRING(v))) if v == "x"));
    assert_eq!(field_index_value(s(), IndexType::U64).unwrap_err(), "Value type does not match expected type for index.");
    assert!(matches!(field_index_value(JsonField::U64(9), IndexType::U64), Ok(Some(IndexAbleType::U64(9)))));
    assert!(field_index_value(JsonField::U64(9), IndexType::INVALIDTYPE).is_err());
    assert!(matches!(field_index_value(JsonField::Absent, IndexType::U64), Ok(None)));
    assert_eq!(
        field_index_value(JsonField::NotObject, IndexType::STRING).unwrap_err(),
        "Properties of a vertex are not a JSON object."
    );
    assert!(field_index_value(JsonField::Invalid, IndexType::U64).is_err());
    for f in [JsonField::Null, JsonField::Bool, JsonField::OtherNumber, JsonField::Array, JsonField::Object] {
        assert_eq!(field_index_value(f, IndexType::U64).unwrap_err(), "Value type does not match expected type for index.");
    }
}

#[test]
fn add_index_then_find_through_it() {
    let mut db = db_with_types();
    db.add_type("Person", fields(&["name"])).unwrap();
    for _ in 0..3 {
        db.add_node(0, None).unwrap();
    }
    let nodes = db.get_all_nodes();
    assert_eq!(nodes.len(), 3);
    let types = vec![0, 0, 0];
    let props: Vec<String> = nodes
        .iter()
        .map(|v| format!(r#"{{"name": "n{}", "id": {}}}"#, v.id, v.id))
        .collect();
    let f = IndexFile::new(
        &db,
        "Person".to_string(),
        "name".to_string(),
        IndexType::STRING,
        ObjectType::Vertex,
        IndexConstraints::new(false, false, false),
        &types,
        &props,
    )
    .unwrap();
    assert_eq!(f.typename, "Person");
    assert_eq!(f.idx.get(IndexAbleType::STRING("n1".to_string())).unwrap(), Some(1));
    let e = IndexFile::new(
        &db,
        "Car".to_string(),
        "name".to_string(),
        IndexType::STRING,
        ObjectType::Vertex,
        IndexConstraints::new(false, false, false),
        &types,
        &props,
    )
    .unwrap_err();
    assert_eq!(e, "Type Car does not exist");

    let entries = index_entries(&nodes, &types, &props, 0, "name", IndexType::STRING).unwrap();
    db.add_index("Person", "name", entries, IndexType::STRING).unwrap();
    assert_eq!(db.db.indices.len(), 1);
    assert_eq!(db.find_node_id_indexed("Person", "name", IndexAbleType::STRING("n2".to_string())).unwrap(), 2);
    let again = index_entries(&nodes, &types, &props, 0, "name", IndexType::STRING).unwrap();
    let e = db.add_index("Person", "name", again, IndexType::STRING).unwrap_err();
    assert_eq!(e, "Property name of type Person is already indexed. Cannot put multiple indices on single property.");
    assert_eq!(db.db.indices.len(), 1);
    let ids = index_entries(&nodes, &types, &props, 0, "id", IndexType::U64).unwrap();
    db.add_index("Person", "id", ids, IndexType::U64).unwrap();
    assert_eq!(db.find_node_id_indexed("Person", "id", IndexAbleType::U64(0)).unwrap(), 0);
}
