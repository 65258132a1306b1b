use avro_schema::decode::{decode, DecodeError};
use avro_schema::encode::encode;
use avro_schema::json::{Json, Member};
use avro_schema::schema::{
    Array, Attributes, ComplexType, Enum, Field, Fixed, MapType, PrimitiveType, Record, Schema,
    Type, TypeName, SCHEMA_METADATA_KEY,
};

fn to_json(v: &serde_json::Value) -> Json {
    match v {
        serde_json::Value::Null => Json::Null,
        serde_json::Value::Bool(b) => Json::Bool(*b),
        serde_json::Value::Number(n) => Json::Number(n.to_string()),
        serde_json::Value::String(s) => Json::Str(s.clone()),
        serde_json::Value::Array(a) => Json::Array(a.iter().map(to_json).collect()),
        serde_json::Value::Object(m) => Json::Object(
            m.iter()
                .map(|(k, v)| Member { key: k.clone(), value: to_json(v) })
                .collect(),
        ),
    }
}

fn parse(text: &str) -> Result<Schema, DecodeError> {
    let value: serde_json::Value = serde_json::from_str(text).unwrap();
    decode(&to_json(&value))
}

fn prim(p: PrimitiveType) -> Schema {
    Schema::TypeName(TypeName::Primitive(p))
}

fn no_attributes() -> Attributes {
    Attributes { logical_type: None, additional: vec![] }
}

fn decimal_fixed() -> ComplexType {
    ComplexType::Fixed(Fixed {
        name: "fixed".to_string(),
        namespace: Some("topLevelRecord.value".to_string()),
        aliases: vec![],
        size: 11,
        attributes: Attributes {
            logical_type: Some("decimal".to_string()),
            additional: vec![
                Member { key: "precision".to_string(), value: Json::Number("25".to_string()) },
                Member { key: "scale".to_string(), value: Json::Number("2".to_string()) },
            ],
        },
    })
}

fn timestamp() -> Type {
    Type {
        base: TypeName::Primitive(PrimitiveType::Long),
        attributes: Attributes { logical_type: Some("timestamp-micros".to_string()), additional: vec![] },
    }
}

fn field(name: &str, t: Schema) -> Field {
    Field { name: name.to_string(), doc: None, field_type: t, default: None }
}

#[test]
fn test_deserialize() {
    let t = parse("\"string\"").unwrap();
    assert_eq!(t, prim(PrimitiveType::String));

    let t = parse("[\"int\", \"null\"]").unwrap();
    assert_eq!(t, Schema::Union(vec![prim(PrimitiveType::Int), prim(PrimitiveType::Null)]));

    let t = parse(
        r#"{
               "type":"long",
               "logicalType":"timestamp-micros"
            }"#,
    )
    .unwrap();
    assert_eq!(t, Schema::Type(timestamp()));

    let t = parse(
        r#"{
               "type":"fixed",
               "name":"fixed",
               "namespace":"topLevelRecord.value",
               "size":11,
               "logicalType":"decimal",
               "precision":25,
               "scale":2
            }"#,
    )
    .unwrap();
    assert_eq!(t, Schema::Complex(decimal_fixed()));

    let schema = parse(
        r#"{
           "type":"record",
           "name":"topLevelRecord",
           "fields":[
              {
                 "name":"value",
                 "type":[
                    {
                       "type":"fixed",
                       "name":"fixed",
                       "namespace":"topLevelRecord.value",
                       "size":11,
                       "logicalType":"decimal",
                       "precision":25,
                       "scale":2
                    },
                    "null"
                 ]
              }
           ]
        }"#,
    )
    .unwrap();
    assert_eq!(
        schema,
        Schema::Complex(ComplexType::Record(Record {
            name: "topLevelRecord".to_string(),
            namespace: None,
            doc: None,
            aliases: vec![],
            fields: vec![field(
                "value",
                Schema::Union(vec![Schema::Complex(decimal_fixed()), prim(PrimitiveType::Null)]),
            )],
            attributes: no_attributes(),
        }))
    );

    let schema = parse(
        r#"{
              "type": "record",
              "name": "LongList",
              "aliases": ["LinkedLongs"],
              "fields" : [
                {"name": "value", "type": "long"},
                {"name": "next", "type": ["null", "LongList"]}
              ]
            }"#,
    )
    .unwrap();
    assert_eq!(
        schema,
        Schema::Complex(ComplexType::Record(Record {
            name: "LongList".to_string(),
            namespace: None,
            doc: None,
            aliases: vec!["LinkedLongs".to_string()],
            fields: vec![
                field("value", prim(PrimitiveType::Long)),
                field(
                    "next",
                    Schema::Union(vec![
                        prim(PrimitiveType::Null),
                        Schema::TypeName(TypeName::Ref("LongList".to_string())),
                    ]),
                ),
            ],
            attributes: no_attributes(),
        }))
    );

    let schema = parse(
        r#"{
           "type":"record",
           "name":"topLevelRecord",
           "fields":[
              {
                 "name":"id",
                 "type":[
                    "int",
                    "null"
                 ]
              },
              {
                 "name":"timestamp_col",
                 "type":[
                    {
                       "type":"long",
                       "logicalType":"timestamp-micros"
                    },
                    "null"
                 ]
              }
           ]
        }"#,
    )
    .unwrap();
    assert_eq!(
        schema,
        Schema::Complex(ComplexType::Record(Record {
            name: "topLevelRecord".to_string(),
            namespace: None,
            doc: None,
            aliases: vec![],
            fields: vec![
                field("id", Schema::Union(vec![prim(PrimitiveType::Int), prim(PrimitiveType::Null)])),
                field(
                    "timestamp_col",
                    Schema::Union(vec![Schema::Type(timestamp()), prim(PrimitiveType::Null)]),
                ),
            ],
            attributes: no_attributes(),
        }))
    );

    let schema = parse(
        r#"{
              "type": "record",
              "name": "HandshakeRequest", "namespace":"org.apache.avro.ipc",
              "fields": [
                {"name": "clientHash", "type": {"type": "fixed", "name": "MD5", "size": 16}},
                {"name": "clientProtocol", "type": ["null", "string"]},
                {"name": "serverHash", "type": "MD5"},
                {"name": "meta", "type": ["null", {"type": "map", "values": "bytes"}]}
              ]
        }"#,
    )
    .unwrap();
    assert_eq!(
        schema,
        Schema::Complex(ComplexType::Record(Record {
            name: "HandshakeRequest".to_string(),
            namespace: Some("org.apache.avro.ipc".to_string()),
            doc: None,
            aliases: vec![],
            fields: vec![
                field(
                    "clientHash",
                    Schema::Complex(ComplexType::Fixed(Fixed {
                        name: "MD5".to_string(),
                        namespace: None,
                        aliases: vec![],
                        size: 16,
                        attributes: no_attributes(),
                    })),
                ),
                field(
                    "clientProtocol",
                    Schema::Union(vec![prim(PrimitiveType::Null), prim(PrimitiveType::String)]),
                ),
                field("serverHash", Schema::TypeName(TypeName::Ref("MD5".to_string()))),
                field(
                    "meta",
                    Schema::Union(vec![
                        prim(PrimitiveType::Null),
                        Schema::Complex(ComplexType::MapType(MapType {
                            values: Box::new(prim(PrimitiveType::Bytes)),
                            attributes: no_attributes(),
                        })),
                    ]),
                ),
            ],
            attributes: no_attributes(),
        }))
    );
}

#[test]
fn reserved_words_decode_to_primitives() {
    let words = [
        ("null", PrimitiveType::Null),
        ("boolean", PrimitiveType::Boolean),
        ("int", PrimitiveType::Int),
        ("long", PrimitiveType::Long),
        ("float", PrimitiveType::Float),
        ("double", PrimitiveType::Double),
        ("bytes", PrimitiveType::Bytes),
        ("string", PrimitiveType::String),
    ];
    for (word, p) in words {
        assert_eq!(decode(&Json::Str(word.to_string())), Ok(prim(p)));
    }
    assert_eq!(
        decode(&Json::Str("Int".to_string())),
        Ok(Schema::TypeName(TypeName::Ref("Int".to_string())))
    );
    assert_eq!(
        decode(&Json::Str("com.example.Thing".to_string())),
        Ok(Schema::TypeName(TypeName::Ref("com.example.Thing".to_string())))
    );
}

#[test]
fn union_order_is_kept() {
    let t = parse("[\"int\",\"null\"]").unwrap();
    assert_eq!(t, Schema::Union(vec![prim(PrimitiveType::Int), prim(PrimitiveType::Null)]));
    assert_ne!(t, Schema::Union(vec![prim(PrimitiveType::Null), prim(PrimitiveType::Int)]));
    assert_eq!(parse("[]").unwrap(), Schema::Union(vec![]));
}

#[test]
fn logical_type_on_a_primitive() {
    let t = parse(r#"{"type":"long","logicalType":"timestamp-micros"}"#).unwrap();
    assert_eq!(t, Schema::Type(timestamp()));
}

#[test]
fn fixed_keeps_extra_attributes() {
    let t = parse(
        r#"{"type":"fixed","name":"fixed","namespace":"topLevelRecord.value","size":11,
            "logicalType":"decimal","precision":25,"scale":2}"#,
    )
    .unwrap();
    assert_eq!(t, Schema::Complex(decimal_fixed()));
}

#[test]
fn missing_aliases_are_empty() {
    let r = parse(r#"{"type":"record","name":"R","fields":[]}"#).unwrap();
    match r {
        Schema::Complex(ComplexType::Record(rec)) => assert_eq!(rec.aliases, Vec::<String>::new()),
        other => panic!("not a record: {:?}", other),
    }
    let e = parse(r#"{"type":"enum","name":"E","symbols":["A","B"]}"#).unwrap();
    assert_eq!(
        e,
        Schema::Complex(ComplexType::Enum(Enum {
            name: "E".to_string(),
            namespace: None,
            doc: None,
            aliases: vec![],
            symbols: vec!["A".to_string(), "B".to_string()],
            default: None,
            attributes: no_attributes(),
        }))
    );
    let f = parse(r#"{"type":"fixed","name":"F","size":4}"#).unwrap();
    match f {
        Schema::Complex(ComplexType::Fixed(fx)) => {
            assert_eq!(fx.aliases, Vec::<String>::new());
            assert_eq!(fx.size, 4);
        }
        other => panic!("not a fixed: {:?}", other),
    }
}

#[test]
fn array_items_and_unknown_keys() {
    let a = parse(r#"{"type":"array","items":"int","vendor":"x"}"#).unwrap();
    assert_eq!(
        a,
        Schema::Complex(ComplexType::Array(Array {
            items: Box::new(prim(PrimitiveType::Int)),
            attributes: Attributes {
                logical_type: None,
                additional: vec![Member { key: "vendor".to_string(), value: Json::Str("x".to_string()) }],
            },
        }))
    );
}

#[test]
fn field_default_and_doc() {
    let r = parse(
        r#"{"type":"record","name":"R","doc":"a record",
            "fields":[{"name":"a","type":"string","doc":"first","default":"none"}]}"#,
    )
    .unwrap();
    match r {
        Schema::Complex(ComplexType::Record(rec)) => {
            assert_eq!(rec.doc, Some("a record".to_string()));
            assert_eq!(
                rec.fields,
                vec![Field {
                    name: "a".to_string(),
                    doc: Some("first".to_string()),
                    field_type: prim(PrimitiveType::String),
                    default: Some("none".to_string()),
                }]
            );
        }
        other => panic!("not a record: {:?}", other),
    }
}

#[test]
fn shapes_that_are_no_schema() {
    assert_eq!(parse("42"), Err(DecodeError::UnrecognizedShape));
    assert_eq!(parse("null"), Err(DecodeError::UnrecognizedShape));
    assert_eq!(parse(r#"{"name":"x"}"#), Err(DecodeError::UnrecognizedShape));
    assert!(parse(r#"{"type":"fixed","name":"F","size":-1}"#).is_err());
    assert!(parse(r#"{"type":"fixed","name":"F","size":1.5}"#).is_err());
    assert!(parse(r#"{"type":"fixed","name":"F"}"#).is_err());
    assert!(parse(r#"{"type":"record","name":"R"}"#).is_err());
    assert!(parse(r#"{"type":"enum","name":"E","symbols":[1]}"#).is_err());
    assert!(parse(r#"{"type":"array"}"#).is_err());
    assert!(parse(r#"{"type":"long","logicalType":7}"#).is_err());
    assert!(parse(r#"["int", 3]"#).is_err());
    assert!(parse(r#"{"type":{"type":"int"}}"#).is_err());
}

#[test]
fn encode_writes_the_grammar() {
    assert_eq!(encode(&prim(PrimitiveType::Double)), Json::Str("double".to_string()));
    assert_eq!(
        encode(&Schema::Type(timestamp())),
        Json::Object(vec![
            Member { key: "type".to_string(), value: Json::Str("long".to_string()) },
            Member { key: "logicalType".to_string(), value: Json::Str("timestamp-micros".to_string()) },
        ])
    );
    let fixed = encode(&Schema::Complex(decimal_fixed()));
    match fixed {
        Json::Object(members) => {
            assert_eq!(members[0], Member { key: "type".to_string(), value: Json::Str("fixed".to_string()) });
            let size = members.iter().find(|m| m.key == "size").unwrap();
            assert_eq!(size.value, Json::Number("11".to_string()));
        }
        other => panic!("not an object: {:?}", other),
    }
}

#[test]
fn decode_encode_round_trip() {
    let texts = [
        "\"string\"",
        "[\"int\",\"null\",\"Other\"]",
        r#"{"type":"long","logicalType":"timestamp-micros"}"#,
        r#"{"type":"fixed","name":"fixed","namespace":"n","size":1234567,"logicalType":"decimal","precision":25,"scale":2}"#,
        r#"{"type":"record","name":"R","aliases":["S"],"fields":[{"name":"a","type":["null",{"type":"map","values":"bytes"}]},{"name":"b","type":{"type":"array","items":"R"},"default":"x"}]}"#,
        r#"{"type":"enum","name":"E","doc":"d","symbols":["A","B"],"default":"A","extra":{"k":[1,true,null]}}"#,
    ];
    for text in texts {
        let schema = parse(text).unwrap();
        let again = decode(&encode(&schema)).unwrap();
        assert_eq!(again, schema);
    }
}

#[test]
fn metadata_key() {
    assert_eq!(SCHEMA_METADATA_KEY, "avro.schema");
}

#[test]
fn attributes_compare_as_sets() {
    let a = Attributes {
        logical_type: Some("decimal".to_string()),
        additional: vec![
            Member { key: "precision".to_string(), value: Json::Number("25".to_string()) },
            Member { key: "scale".to_string(), value: Json::Number("2".to_string()) },
        ],
    };
    let b = Attributes {
        logical_type: Some("decimal".to_string()),
        additional: vec![
            Member { key: "scale".to_string(), value: Json::Number("2".to_string()) },
            Member { key: "precision".to_string(), value: Json::Number("25".to_string()) },
        ],
    };
    let c = Attributes {
        logical_type: Some("decimal".to_string()),
        additional: vec![Member { key: "scale".to_string(), value: Json::Number("3".to_string()) }],
    };
    let d = Attributes { logical_type: None, additional: b.additional.iter().map(|m| Member { key: m.key.clone(), value: m.value.deep_copy() }).collect() };
    assert_eq!(a, b);
    assert_ne!(a, c);
    assert_ne!(a, d);
    assert_eq!(no_attributes(), no_attributes());
}
