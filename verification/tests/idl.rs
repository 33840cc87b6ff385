use solang::idl::{
    Idl, EnumVariant, Event, EventField, Field, Instruction, FieldType,
    TypeDefinition, TypeDefinitionKind, JsonValue,
};
use solang::{
    idltype_to_solidity, output_file_name, parse_anchor_idl, program_id, solidity_file,
    write_solidity,
};

fn field(name: &str, ty: FieldType) -> Field {
    Field { name: name.to_string(), ty }
}

fn with_metadata(metadata: Option<JsonValue>) -> Idl {
    Idl { name: "p".to_string(), instructions: vec![], types: vec![], events: None, metadata }
}

#[test]
fn solidity_types() {
    assert_eq!(idltype_to_solidity(&FieldType::Bool), Ok("bool".to_string()));
    assert_eq!(idltype_to_solidity(&FieldType::U8), Ok("uint8".to_string()));
    assert_eq!(idltype_to_solidity(&FieldType::I128), Ok("int128".to_string()));
    assert_eq!(idltype_to_solidity(&FieldType::PublicKey), Ok("address".to_string()));
    assert_eq!(idltype_to_solidity(&FieldType::String), Ok("string".to_string()));
    assert_eq!(idltype_to_solidity(&FieldType::Bytes), Ok("bytes".to_string()));
    assert_eq!(
        idltype_to_solidity(&FieldType::Vec(Box::new(FieldType::U8))),
        Ok("uint8[]".to_string())
    );
    assert_eq!(
        idltype_to_solidity(&FieldType::Array(Box::new(FieldType::I32), 4)),
        Ok("int32[4]".to_string())
    );
    assert_eq!(
        idltype_to_solidity(&FieldType::Vec(Box::new(FieldType::Array(Box::new(FieldType::U64), 12)))),
        Ok("uint64[12][]".to_string())
    );
}

#[test]
fn types_without_solidity_counterpart() {
    assert_eq!(idltype_to_solidity(&FieldType::F32), Err("f32".to_string()));
    assert_eq!(idltype_to_solidity(&FieldType::F64), Err("f64".to_string()));
    assert_eq!(
        idltype_to_solidity(&FieldType::Option(Box::new(FieldType::F32))),
        Err("Option(f32)".to_string())
    );
    assert_eq!(
        idltype_to_solidity(&FieldType::Option(Box::new(FieldType::U8))),
        Err("Option(uint8)".to_string())
    );
    assert_eq!(
        idltype_to_solidity(&FieldType::Defined("Foo".to_string())),
        Err("Defined(Foo)".to_string())
    );
    assert_eq!(
        idltype_to_solidity(&FieldType::Vec(Box::new(FieldType::F64))),
        Err("f64[]".to_string())
    );
    assert_eq!(
        idltype_to_solidity(&FieldType::Array(Box::new(FieldType::Option(Box::new(FieldType::U8))), 2)),
        Err("Option(uint8)[2]".to_string())
    );
}

#[test]
fn program_address_from_metadata() {
    let idl = with_metadata(Some(JsonValue::Object(vec![
        ("name".to_string(), JsonValue::String("x".to_string())),
        ("address".to_string(), JsonValue::String("Fg6PaFpoGXkYsidMpWTK6W2BeZ7FEfcYkg476zPFsLnS".to_string())),
    ])));
    assert_eq!(
        program_id(&idl),
        Some(&"Fg6PaFpoGXkYsidMpWTK6W2BeZ7FEfcYkg476zPFsLnS".to_string())
    );
}

#[test]
fn no_program_address() {
    assert_eq!(program_id(&with_metadata(None)), None);
    assert_eq!(program_id(&with_metadata(Some(JsonValue::Null))), None);
    assert_eq!(program_id(&with_metadata(Some(JsonValue::Object(vec![])))), None);
    let idl = with_metadata(Some(JsonValue::Object(vec![(
        "address".to_string(),
        JsonValue::Number("12".to_string()),
    )])));
    assert_eq!(program_id(&idl), None);
    let idl = with_metadata(Some(JsonValue::Array(vec![JsonValue::String("address".to_string())])));
    assert_eq!(program_id(&idl), None);
}

fn sample() -> Idl {
    Idl {
        name: "foo".to_string(),
        instructions: vec![
            Instruction {
                name: "init".to_string(),
                args: vec![field("x", FieldType::U64), field("who", FieldType::PublicKey)],
            },
            Instruction { name: "bad".to_string(), args: vec![field("f", FieldType::F64)] },
            Instruction { name: "ping".to_string(), args: vec![] },
        ],
        types: vec![
            TypeDefinition {
                name: "Color".to_string(),
                ty: TypeDefinitionKind::Enum {
                    variants: vec![
                        EnumVariant { name: "Red".to_string(), has_fields: false },
                        EnumVariant { name: "Green".to_string(), has_fields: false },
                    ],
                },
            },
            TypeDefinition {
                name: "Shape".to_string(),
                ty: TypeDefinitionKind::Enum {
                    variants: vec![
                        EnumVariant { name: "Dot".to_string(), has_fields: false },
                        EnumVariant { name: "Circle".to_string(), has_fields: true },
                    ],
                },
            },
            TypeDefinition {
                name: "Point".to_string(),
                ty: TypeDefinitionKind::Struct {
                    fields: vec![field("x", FieldType::I64), field("y", FieldType::I64)],
                },
            },
            TypeDefinition {
                name: "Bad".to_string(),
                ty: TypeDefinitionKind::Struct {
                    fields: vec![
                        field("f", FieldType::F32),
                        field("ok", FieldType::Bool),
                        field("g", FieldType::Option(Box::new(FieldType::U8))),
                    ],
                },
            },
        ],
        events: Some(vec![
            Event {
                name: "Ev".to_string(),
                fields: vec![
                    EventField { name: "a".to_string(), ty: FieldType::U8, index: true },
                    EventField { name: "b".to_string(), ty: FieldType::String, index: false },
                ],
            },
            Event {
                name: "Odd".to_string(),
                fields: vec![EventField {
                    name: "d".to_string(),
                    ty: FieldType::Defined("Thing".to_string()),
                    index: false,
                }],
            },
        ]),
        metadata: Some(JsonValue::Object(vec![(
            "address".to_string(),
            JsonValue::String("Prog111".to_string()),
        )])),
    }
}

#[test]
fn solidity_text_for_idl() {
    let out = write_solidity(&sample());
    let expected = "anchor_foo constant foo = anchor_foo(address'Prog111');\n\n\
enum Color {\tRed,\n\tGreen\n}\n\
struct Point {\n\tx\tint64,\n\ty\tint64\n}\n\
event Ev {\n\tuint8\t indexed a,\n\tstring\t b\n}\n\
interface anchor_foo {\n\
\tfunction init(uint64 x,address who) external;\n\
\tfunction ping() external;\n\
}\n";
    assert_eq!(out.text, expected);
}

#[test]
fn solidity_warnings_for_idl() {
    let out = write_solidity(&sample());
    assert_eq!(
        out.warnings,
        vec![
            "enum Shape has variants with fields, not supported in Solidity\n".to_string(),
            "struct Bad has fields of type f32, Option(uint8) which is not supported on Solidity".to_string(),
            "event Odd has fields of type Defined(Thing) which is not supported on Solidity".to_string(),
            "instructions bad has arguments of type f64 which is not supported on Solidity".to_string(),
        ]
    );
}

#[test]
fn minimal_idl() {
    let out = write_solidity(&with_metadata(None));
    assert_eq!(out.text, "interface anchor_p {\n}\n");
    assert!(out.warnings.is_empty());
}

#[test]
fn event_fields_are_tab_separated() {
    let idl = Idl {
        name: "foo".to_string(),
        instructions: vec![],
        types: vec![],
        events: Some(vec![Event {
            name: "Ev".to_string(),
            fields: vec![
                EventField { name: "a".to_string(), ty: FieldType::U8, index: true },
                EventField { name: "b".to_string(), ty: FieldType::Bool, index: false },
            ],
        }]),
        metadata: None,
    };
    let out = write_solidity(&idl);
    assert_eq!(
        out.text,
        "event Ev {\n\tuint8\t indexed a,\n\tbool\t b\n}\ninterface anchor_foo {\n}\n"
    );
}

const IDL_JSON: &str = r#"{
  "version": "0.1.0",
  "name": "counter",
  "instructions": [
    {
      "name": "increment",
      "accounts": [{ "name": "counter", "isMut": true, "isSigner": false }],
      "args": [
        { "name": "by", "type": "u64" },
        { "name": "owner", "type": "publicKey" },
        { "name": "tags", "type": { "vec": "string" } }
      ]
    },
    {
      "name": "scale",
      "accounts": [],
      "args": [{ "name": "factor", "type": "f64" }]
    }
  ],
  "types": [
    {
      "name": "Mode",
      "type": { "kind": "enum", "variants": [{ "name": "Off" }, { "name": "On" }] }
    },
    {
      "name": "Pair",
      "type": {
        "kind": "struct",
        "fields": [
          { "name": "key", "type": { "array": ["u8", 32] } },
          { "name": "value", "type": { "option": "i16" } }
        ]
      }
    },
    {
      "name": "Payload",
      "type": {
        "kind": "enum",
        "variants": [{ "name": "Empty" }, { "name": "Data", "fields": ["u8"] }]
      }
    }
  ],
  "events": [
    {
      "name": "Incremented",
      "fields": [
        { "name": "amount", "type": "u128", "index": false },
        { "name": "who", "type": { "defined": "Pair" }, "index": true }
      ]
    }
  ],
  "metadata": { "address": "Cnt111" }
}"#;

#[test]
fn solidity_file_from_json() {
    let (name, file) = solidity_file(IDL_JSON.as_bytes()).expect("a valid IDL");
    assert_eq!(name, "counter.sol");
    assert_eq!(
        file.text,
        "anchor_counter constant counter = anchor_counter(address'Cnt111');\n\n\
enum Mode {\tOff,\n\tOn\n}\n\
interface anchor_counter {\n\
\tfunction increment(uint64 by,address owner,string[] tags) external;\n\
}\n"
    );
    assert_eq!(
        file.warnings,
        vec![
            "struct Pair has fields of type Option(int16) which is not supported on Solidity".to_string(),
            "enum Payload has variants with fields, not supported in Solidity\n".to_string(),
            "event Incremented has fields of type Defined(Pair) which is not supported on Solidity".to_string(),
            "instructions scale has arguments of type f64 which is not supported on Solidity".to_string(),
        ]
    );
}

#[test]
fn parse_keeps_the_idl_parts() {
    let idl = parse_anchor_idl(IDL_JSON.as_bytes()).expect("a valid IDL");
    assert_eq!(idl.name, "counter");
    assert_eq!(idl.instructions.len(), 2);
    assert_eq!(idl.instructions[0].args[2].name, "tags");
    assert_eq!(output_file_name(&idl), "counter.sol");
    assert_eq!(program_id(&idl), Some(&"Cnt111".to_string()));
    assert_eq!(idl.types.len(), 3);
    assert_eq!(idl.events.as_ref().map(|e| e.len()), Some(1));
}

#[test]
fn solidity_file_reports_parse_errors() {
    let err = solidity_file(b"{ \"name\": ").expect_err("not an IDL");
    assert!(err.contains("EOF"), "{}", err);
    let err = solidity_file(br#"{"name": "x"}"#).expect_err("not an IDL");
    assert!(err.contains("missing field"), "{}", err);
}
