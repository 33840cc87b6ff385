//! Reading an Anchor IDL from its JSON text, and the Solidity file made from
//! it. The parse is `serde_json`'s into `anchor_syn`'s IDL types; the parts
//! that the Solidity text is made from are then carried over, one for one,
//! into the library's own types.
use vstd::prelude::*;
use anchor_syn::idl::{
    IdlEvent as AnchorEvent, IdlField as AnchorField, IdlInstruction as AnchorInstruction,
    IdlType as AnchorType, IdlTypeDefinition as AnchorTypeDefinition,
    IdlTypeDefinitionTy as AnchorTypeDefinitionTy,
};
use serde_json::Value;
use crate::idl::{
    metadata_well_formed, solidity_text, solidity_warnings, strings_view, write_solidity, EnumVariant, Event,
    EventField, Field, FieldType, Idl, Instruction, JsonValue, SolidityFile, TypeDefinition,
    TypeDefinitionKind,
};

verus! {

#[verifier::external_type_specification]
#[verifier::external_body]
pub struct ExAnchorType(anchor_syn::idl::IdlType);

#[verifier::external_type_specification]
#[verifier::external_body]
pub struct ExAnchorField(anchor_syn::idl::IdlField);

#[verifier::external_type_specification]
#[verifier::external_body]
pub struct ExAnchorEvent(anchor_syn::idl::IdlEvent);

#[verifier::external_type_specification]
#[verifier::external_body]
pub struct ExAnchorInstruction(anchor_syn::idl::IdlInstruction);

#[verifier::external_type_specification]
#[verifier::external_body]
pub struct ExAnchorTypeDefinition(anchor_syn::idl::IdlTypeDefinition);

#[verifier::external_type_specification]
#[verifier::external_body]
pub struct ExJsonValue(serde_json::Value);

/// What `serde_json::from_slice` makes of `json` as an `anchor_syn` IDL: the
/// parts that the Solidity text is made from, or the error's text.
pub uninterp spec fn anchor_idl(json: Seq<u8>) -> Result<Idl, Seq<char>>;

/// A parse's outcome, its error by the error's text.
pub open spec fn parse_outcome(r: Result<Idl, String>) -> Result<Idl, Seq<char>> {
    match r {
        Ok(i) => Ok(i),
        Err(e) => Err(e@),
    }
}

/// An `anchor_syn` integer type in the library's terms; `None` for the
/// other types. Nothing is stated of it: it only carries variants over.
#[verifier::external_body]
fn integer_type_from(t: &AnchorType) -> (r: Option<FieldType>) {
    match t {
        AnchorType::U8 => Some(FieldType::U8),
        AnchorType::I8 => Some(FieldType::I8),
        AnchorType::U16 => Some(FieldType::U16),
        AnchorType::I16 => Some(FieldType::I16),
        AnchorType::U32 => Some(FieldType::U32),
        AnchorType::I32 => Some(FieldType::I32),
        AnchorType::U64 => Some(FieldType::U64),
        AnchorType::I64 => Some(FieldType::I64),
        AnchorType::U128 => Some(FieldType::U128),
        AnchorType::I128 => Some(FieldType::I128),
        _ => None,
    }
}

/// An `anchor_syn` IDL type in the library's terms, variant for variant.
/// Nothing is stated of it.
#[verifier::external_body]
fn type_from(t: &AnchorType) -> (r: FieldType) {
    match t {
        AnchorType::Bool => FieldType::Bool,
        AnchorType::F32 => FieldType::F32,
        AnchorType::F64 => FieldType::F64,
        AnchorType::Bytes => FieldType::Bytes,
        AnchorType::String => FieldType::String,
        AnchorType::PublicKey => FieldType::PublicKey,
        AnchorType::Defined(s) => FieldType::Defined(s.clone()),
        AnchorType::Option(x) => FieldType::Option(Box::new(type_from(x))),
        AnchorType::Vec(x) => FieldType::Vec(Box::new(type_from(x))),
        AnchorType::Array(x, n) => FieldType::Array(Box::new(type_from(x)), *n),
        other => integer_type_from(other).expect("the remaining variants are integers"),
    }
}

/// An `anchor_syn` field: its name and type. Nothing is stated of it.
#[verifier::external_body]
fn field_from(f: &AnchorField) -> (r: Field) {
    Field { name: f.name.clone(), ty: type_from(&f.ty) }
}

/// An `anchor_syn` instruction: its name and arguments. Nothing is stated
/// of it.
#[verifier::external_body]
fn instruction_from(i: &AnchorInstruction) -> (r: Instruction) {
    Instruction { name: i.name.clone(), args: i.args.iter().map(field_from).collect() }
}

/// An `anchor_syn` event: its name and fields. Nothing is stated of it.
#[verifier::external_body]
fn event_from(e: &AnchorEvent) -> (r: Event) {
    let fields = e.fields.iter().map(
        |f| EventField { name: f.name.clone(), ty: type_from(&f.ty), index: f.index },
    );
    Event { name: e.name.clone(), fields: fields.collect() }
}

/// An `anchor_syn` defined type: its name, and its fields or its variants
/// (of a variant, its name and whether it has fields). Nothing is stated of
/// it.
#[verifier::external_body]
fn type_definition_from(d: &AnchorTypeDefinition) -> (r: TypeDefinition) {
    let ty = match &d.ty {
        AnchorTypeDefinitionTy::Struct { fields } => TypeDefinitionKind::Struct {
            fields: fields.iter().map(field_from).collect(),
        },
        AnchorTypeDefinitionTy::Enum { variants } => TypeDefinitionKind::Enum {
            variants: variants.iter().map(
                |v| EnumVariant { name: v.name.clone(), has_fields: v.fields.is_some() },
            ).collect(),
        },
    };
    TypeDefinition { name: d.name.clone(), ty }
}

/// A `serde_json::Value` in the library's terms, a number by its text.
/// Nothing is stated of it.
#[verifier::external_body]
fn json_from(v: &Value) -> (r: JsonValue) {
    match v {
        Value::Null => JsonValue::Null,
        Value::Bool(b) => JsonValue::Bool(*b),
        Value::Number(n) => JsonValue::Number(n.to_string()),
        Value::String(s) => JsonValue::String(s.clone()),
        Value::Array(items) => JsonValue::Array(items.iter().map(json_from).collect()),
        Value::Object(members) => JsonValue::Object(
            members.iter().map(|(k, m)| (k.clone(), json_from(m))).collect(),
        ),
    }
}

/// `serde_json::from_slice` into `anchor_syn::idl::Idl`: the claim is that
/// its outcome is the one `anchor_idl` names for these bytes (the error by
/// its `Display` text), and that the metadata, when it is an object, has
/// each key once, as a `serde_json::Map` holds it.
#[verifier::external_body]
pub fn parse_anchor_idl(json: &[u8]) -> (r: Result<Idl, String>)
    ensures
        parse_outcome(r) == anchor_idl(json@),
        r matches Ok(i) ==> metadata_well_formed(i),
{
    match serde_json::from_slice::<anchor_syn::idl::Idl>(json) {
        Ok(idl) => Ok(Idl {
            name: idl.name.clone(),
            instructions: idl.instructions.iter().map(instruction_from).collect(),
            types: idl.types.iter().map(type_definition_from).collect(),
            events: idl.events.as_ref().map(|evs| evs.iter().map(event_from).collect()),
            metadata: idl.metadata.as_ref().map(json_from),
        }),
        Err(e) => Err(e.to_string()),
    }
}

/// The name of the Solidity file for an IDL: its name with `.sol` added.
pub fn output_file_name(idl: &Idl) -> (r: String)
    ensures
        r@ == idl.name@ + ".sol"@,
{
    let mut r = String::new();
    r.append(idl.name.as_str());
    r.append(".sol");
    r
}

/// The Solidity file for the JSON text of an Anchor IDL: its file name, its
/// text and the warnings about what it leaves out; or the parse error.
pub fn solidity_file(json: &[u8]) -> (r: Result<(String, SolidityFile), String>)
    ensures
        r is Ok <==> anchor_idl(json@) is Ok,
        r matches Ok((name, f)) ==> anchor_idl(json@) matches Ok(i) && name@ == i.name@ + ".sol"@
            && f.text@ == solidity_text(i) && strings_view(f.warnings@) == solidity_warnings(i),
        r matches Err(e) ==> anchor_idl(json@) == parse_outcome(Err(e)),
{
    match parse_anchor_idl(json) {
        Ok(idl) => {
            let name = output_file_name(&idl);
            let file = write_solidity(&idl);
            Ok((name, file))
        },
        Err(e) => Err(e),
    }
}

} // verus!
