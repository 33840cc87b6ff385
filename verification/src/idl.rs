//! Solidity interface text for an Anchor IDL: the program's address, its
//! enums, structs and events, and an interface with one function per
//! instruction. What Solidity cannot express is left out with a warning.
use vstd::prelude::*;
use crate::bignum::nat_decimal;
use crate::ast::{type_text, Type};
use crate::text::push_decimal;

verus! {

/// A value of the IDL's free-form metadata (JSON).
#[derive(Debug)]
pub enum JsonValue {
    Null,
    Bool(bool),
    /// A number, by its JSON text.
    Number(String),
    String(String),
    Array(Vec<JsonValue>),
    /// The members of an object; as parsed, each key occurs once
    /// (`keys_distinct`).
    Object(Vec<(String, JsonValue)>),
}

/// The type of an IDL field or argument.
#[derive(Debug)]
pub enum FieldType {
    Bool,
    U8,
    I8,
    U16,
    I16,
    U32,
    I32,
    F32,
    U64,
    I64,
    F64,
    U128,
    I128,
    Bytes,
    String,
    PublicKey,
    Defined(String),
    Option(Box<FieldType>),
    Vec(Box<FieldType>),
    Array(Box<FieldType>, usize),
}

/// A named field of a struct, or an argument of an instruction.
#[derive(Debug)]
pub struct Field {
    pub name: String,
    pub ty: FieldType,
}

/// A field of an event; `index` marks it as indexed.
#[derive(Debug)]
pub struct EventField {
    pub name: String,
    pub ty: FieldType,
    pub index: bool,
}

/// A variant of an enum, and whether it carries fields.
#[derive(Debug)]
pub struct EnumVariant {
    pub name: String,
    pub has_fields: bool,
}

/// The shape of a defined type.
#[derive(Debug)]
pub enum TypeDefinitionKind {
    Struct { fields: Vec<Field> },
    Enum { variants: Vec<EnumVariant> },
}

/// A type that the IDL defines.
#[derive(Debug)]
pub struct TypeDefinition {
    pub name: String,
    pub ty: TypeDefinitionKind,
}

/// An event that the program emits.
#[derive(Debug)]
pub struct Event {
    pub name: String,
    pub fields: Vec<EventField>,
}

/// An instruction of the program and its arguments.
#[derive(Debug)]
pub struct Instruction {
    pub name: String,
    pub args: Vec<Field>,
}

/// The parts of an Anchor IDL that the Solidity text is made from.
#[derive(Debug)]
pub struct Idl {
    pub name: String,
    pub instructions: Vec<Instruction>,
    pub types: Vec<TypeDefinition>,
    pub events: Option<Vec<Event>>,
    pub metadata: Option<JsonValue>,
}

/// The Solidity text and the warnings about what it leaves out.
#[derive(Debug)]
pub struct SolidityFile {
    pub text: String,
    pub warnings: Vec<String>,
}

pub open spec fn text_result(r: Result<String, String>) -> Result<Seq<char>, Seq<char>> {
    match r {
        Ok(s) => Ok(s@),
        Err(s) => Err(s@),
    }
}

pub open spec fn either(r: Result<Seq<char>, Seq<char>>) -> Seq<char> {
    match r {
        Ok(x) => x,
        Err(x) => x,
    }
}

/// The Solidity type for an IDL type, or, for one that Solidity lacks, the
/// name by which warnings mention it.
pub open spec fn sol_type(ty: FieldType) -> Result<Seq<char>, Seq<char>>
    decreases ty,
{
    match ty {
        FieldType::Bool => Ok("bool"@),
        FieldType::U8 => Ok("uint8"@),
        FieldType::I8 => Ok("int8"@),
        FieldType::U16 => Ok("uint16"@),
        FieldType::I16 => Ok("int16"@),
        FieldType::U32 => Ok("uint32"@),
        FieldType::I32 => Ok("int32"@),
        FieldType::U64 => Ok("uint64"@),
        FieldType::I64 => Ok("int64"@),
        FieldType::U128 => Ok("uint128"@),
        FieldType::I128 => Ok("int128"@),
        FieldType::F32 => Err("f32"@),
        FieldType::F64 => Err("f64"@),
        FieldType::Bytes => Ok("bytes"@),
        FieldType::String => Ok("string"@),
        FieldType::PublicKey => Ok("address"@),
        FieldType::Option(t) => Err("Option("@ + either(sol_type(*t)) + ")"@),
        FieldType::Defined(s) => Err("Defined("@ + s@ + ")"@),
        FieldType::Vec(t) => match sol_type(*t) {
            Ok(x) => Ok(x + "[]"@),
            Err(x) => Err(x + "[]"@),
        },
        FieldType::Array(t, n) => match sol_type(*t) {
            Ok(x) => Ok(x + "["@ + nat_decimal(n as nat) + "]"@),
            Err(x) => Err(x + "["@ + nat_decimal(n as nat) + "]"@),
        },
    }
}

/// The Solidity type for an IDL type; an error names a type that Solidity
/// has no counterpart for.
pub fn idltype_to_solidity(ty: &FieldType) -> (r: Result<String, String>)
    ensures
        text_result(r) == sol_type(*ty),
    decreases ty,
{
    match ty {
        FieldType::Bool => Ok(String::from_str("bool")),
        FieldType::U8 => Ok(String::from_str("uint8")),
        FieldType::I8 => Ok(String::from_str("int8")),
        FieldType::U16 => Ok(String::from_str("uint16")),
        FieldType::I16 => Ok(String::from_str("int16")),
        FieldType::U32 => Ok(String::from_str("uint32")),
        FieldType::I32 => Ok(String::from_str("int32")),
        FieldType::U64 => Ok(String::from_str("uint64")),
        FieldType::I64 => Ok(String::from_str("int64")),
        FieldType::U128 => Ok(String::from_str("uint128")),
        FieldType::I128 => Ok(String::from_str("int128")),
        FieldType::F32 => Err(String::from_str("f32")),
        FieldType::F64 => Err(String::from_str("f64")),
        FieldType::Bytes => Ok(String::from_str("bytes")),
        FieldType::String => Ok(String::from_str("string")),
        FieldType::PublicKey => Ok(String::from_str("address")),
        FieldType::Option(t) => {
            let inner = match idltype_to_solidity(t) {
                Ok(x) => x,
                Err(x) => x,
            };
            let mut s = String::from_str("Option(");
            s.append(inner.as_str());
            s.append(")");
            Err(s)
        },
        FieldType::Defined(name) => {
            let mut s = String::from_str("Defined(");
            s.append(name.as_str());
            s.append(")");
            Err(s)
        },
        FieldType::Vec(t) => match idltype_to_solidity(t) {
            Ok(x) => {
                let mut s = x;
                s.append("[]");
                Ok(s)
            },
            Err(x) => {
                let mut s = x;
                s.append("[]");
                Err(s)
            },
        },
        FieldType::Array(t, n) => {
            let inner = idltype_to_solidity(t);
            let ok = inner.is_ok();
            let mut s = match inner {
                Ok(x) => x,
                Err(x) => x,
            };
            s.append("[");
            push_decimal(&mut s, *n as u64);
            s.append("]");
            if ok {
                Ok(s)
            } else {
                Err(s)
            }
        },
    }
}

/// The value of the first member of an object with key `key`.
pub open spec fn member(entries: Seq<(String, JsonValue)>, key: Seq<char>) -> Option<JsonValue>
    decreases entries.len(),
{
    if entries.len() == 0 {
        None
    } else if entries[0].0@ == key {
        Some(entries[0].1)
    } else {
        member(entries.drop_first(), key)
    }
}

/// No key occurs twice among the members of an object.
pub open spec fn keys_distinct(entries: Seq<(String, JsonValue)>) -> bool {
    forall|i: int, j: int| 0 <= i < j < entries.len() ==> entries[i].0@ != entries[j].0@
}

/// The metadata, when it is an object, has each key once.
pub open spec fn metadata_well_formed(idl: Idl) -> bool {
    match idl.metadata {
        Some(JsonValue::Object(entries)) => keys_distinct(entries@),
        _ => true,
    }
}

/// The member of an object whose keys are distinct with key `entries[k].0`
/// is `entries[k].1`: with no key twice, which occurrence is read does not
/// matter.
pub proof fn lemma_member_of_distinct_keys(entries: Seq<(String, JsonValue)>, k: int)
    requires
        keys_distinct(entries),
        0 <= k < entries.len(),
    ensures
        member(entries, entries[k].0@) == Some(entries[k].1),
    decreases entries.len(),
{
    if k > 0 {
        let rest = entries.drop_first();
        assert(entries[0].0@ != entries[k].0@);
        assert(rest[k - 1] == entries[k]);
        assert(keys_distinct(rest)) by {
            assert forall|i: int, j: int| 0 <= i < j < rest.len() implies rest[i].0@ != rest[j].0@ by {
                assert(rest[i] == entries[i + 1] && rest[j] == entries[j + 1]);
            }
        }
        lemma_member_of_distinct_keys(rest, k - 1);
    }
}

/// The program's address: the string member "address" of the metadata
/// object, when there is one.
pub open spec fn program_address(idl: Idl) -> Option<Seq<char>> {
    match idl.metadata {
        Some(JsonValue::Object(entries)) => match member(entries@, "address"@) {
            Some(JsonValue::String(a)) => Some(a@),
            _ => None,
        },
        _ => None,
    }
}

/// The program's address, from the metadata.
pub fn program_id(idl: &Idl) -> (r: Option<&String>)
    ensures
        match r {
            Some(a) => program_address(*idl) == Some(a@),
            None => program_address(*idl) is None,
        },
{
    if let Some(JsonValue::Object(metadata)) = &idl.metadata {
        let key = String::from_str("address");
        let mut i: usize = 0;
        assert(metadata@.subrange(0, metadata@.len() as int) =~= metadata@);
        while i < metadata.len()
            invariant
                i <= metadata@.len(),
                key@ == "address"@,
                idl.metadata == Some(JsonValue::Object(*metadata)),
                member(metadata@, "address"@) == member(metadata@.subrange(i as int, metadata@.len() as int), "address"@),
            decreases metadata@.len() - i,
        {
            let ghost rest = metadata@.subrange(i as int, metadata@.len() as int);
            assert(rest.drop_first() =~= metadata@.subrange(i + 1, metadata@.len() as int));
            assert(rest[0] == metadata@[i as int]);
            if metadata[i].0 == key {
                assert(member(rest, "address"@) == Some(rest[0].1));
                if let JsonValue::String(address) = &metadata[i].1 {
                    return Some(address);
                }
                return None;
            }
            i = i + 1;
        }
    }
    None
}

/// "," after every item but the last of `n`.
pub open spec fn separator(i: int, n: int) -> Seq<char> {
    if i + 1 < n {
        ","@
    } else {
        Seq::empty()
    }
}

/// The names of the types among the first `k` fields that Solidity lacks.
pub open spec fn bad_field_types(fields: Seq<Field>, k: nat) -> Seq<Seq<char>>
    decreases k,
{
    if k == 0 {
        Seq::empty()
    } else {
        let rest = bad_field_types(fields, (k - 1) as nat);
        match sol_type(fields[k - 1].ty) {
            Ok(_) => rest,
            Err(t) => rest.push(t),
        }
    }
}

/// The names of the types among the first `k` event fields that Solidity
/// lacks.
pub open spec fn bad_event_types(fields: Seq<EventField>, k: nat) -> Seq<Seq<char>>
    decreases k,
{
    if k == 0 {
        Seq::empty()
    } else {
        let rest = bad_event_types(fields, (k - 1) as nat);
        match sol_type(fields[k - 1].ty) {
            Ok(_) => rest,
            Err(t) => rest.push(t),
        }
    }
}

/// The items, with `sep` between each two.
pub open spec fn join(items: Seq<Seq<char>>, sep: Seq<char>) -> Seq<char>
    decreases items.len(),
{
    if items.len() == 0 {
        Seq::empty()
    } else if items.len() == 1 {
        items[0]
    } else {
        join(items.drop_last(), sep) + sep + items.last()
    }
}

/// The lines for the first `k` variants of an enum.
pub open spec fn enum_lines(vs: Seq<EnumVariant>, k: nat) -> Seq<char>
    decreases k,
{
    if k == 0 {
        Seq::empty()
    } else {
        enum_lines(vs, (k - 1) as nat) + "\t"@ + vs[k - 1].name@ + separator(k - 1, vs.len() as int)
            + "\n"@
    }
}

/// The lines for the first `k` fields of a struct.
pub open spec fn struct_lines(fs: Seq<Field>, k: nat) -> Seq<char>
    decreases k,
{
    if k == 0 {
        Seq::empty()
    } else {
        struct_lines(fs, (k - 1) as nat) + "\t"@ + fs[k - 1].name@ + "\t"@ + either(
            sol_type(fs[k - 1].ty),
        ) + separator(k - 1, fs.len() as int) + "\n"@
    }
}

/// The lines for the first `k` fields of an event.
pub open spec fn event_lines(fs: Seq<EventField>, k: nat) -> Seq<char>
    decreases k,
{
    if k == 0 {
        Seq::empty()
    } else {
        event_lines(fs, (k - 1) as nat) + "\t"@ + either(sol_type(fs[k - 1].ty)) + "\t"@ + (if fs[k
            - 1].index {
            " indexed "@
        } else {
            " "@
        }) + fs[k - 1].name@ + separator(k - 1, fs.len() as int) + "\n"@
    }
}

/// The first `k` parameters of a function.
pub open spec fn arg_list(fs: Seq<Field>, k: nat) -> Seq<char>
    decreases k,
{
    if k == 0 {
        Seq::empty()
    } else {
        arg_list(fs, (k - 1) as nat) + either(sol_type(fs[k - 1].ty)) + " "@ + fs[k - 1].name@
            + separator(k - 1, fs.len() as int)
    }
}

pub open spec fn some_variant_has_fields(vs: Seq<EnumVariant>) -> bool {
    exists|i: int| 0 <= i < vs.len() && #[trigger] vs[i].has_fields
}

/// The Solidity text for a defined type; nothing when Solidity cannot
/// express it.
pub open spec fn type_def_text(td: TypeDefinition) -> Seq<char> {
    match td.ty {
        TypeDefinitionKind::Enum { variants } => if some_variant_has_fields(variants@) {
            Seq::empty()
        } else {
            "enum "@ + td.name@ + " {"@ + enum_lines(variants@, variants@.len()) + "}\n"@
        },
        TypeDefinitionKind::Struct { fields } => if bad_field_types(fields@, fields@.len()).len()
            == 0 {
            "struct "@ + td.name@ + " {\n"@ + struct_lines(fields@, fields@.len()) + "}\n"@
        } else {
            Seq::empty()
        },
    }
}

/// The warning for a defined type that Solidity cannot express.
pub open spec fn type_def_warnings(td: TypeDefinition) -> Seq<Seq<char>> {
    match td.ty {
        TypeDefinitionKind::Enum { variants } => if some_variant_has_fields(variants@) {
            seq!["enum "@ + td.name@ + " has variants with fields, not supported in Solidity\n"@]
        } else {
            Seq::empty()
        },
        TypeDefinitionKind::Struct { fields } => {
            let bad = bad_field_types(fields@, fields@.len());
            if bad.len() == 0 {
                Seq::empty()
            } else {
                seq![
                    "struct "@ + td.name@ + " has fields of type "@ + join(bad, ", "@)
                        + " which is not supported on Solidity"@,
                ]
            }
        },
    }
}

/// The Solidity text for an event; nothing when a field's type has no
/// Solidity counterpart.
pub open spec fn event_text(ev: Event) -> Seq<char> {
    if bad_event_types(ev.fields@, ev.fields@.len()).len() == 0 {
        "event "@ + ev.name@ + " {\n"@ + event_lines(ev.fields@, ev.fields@.len()) + "}\n"@
    } else {
        Seq::empty()
    }
}

pub open spec fn event_warnings(ev: Event) -> Seq<Seq<char>> {
    let bad = bad_event_types(ev.fields@, ev.fields@.len());
    if bad.len() == 0 {
        Seq::empty()
    } else {
        seq![
            "event "@ + ev.name@ + " has fields of type "@ + join(bad, ", "@)
                + " which is not supported on Solidity"@,
        ]
    }
}

/// The interface function for an instruction; nothing when an argument's
/// type has no Solidity counterpart.
pub open spec fn instruction_text(ins: Instruction) -> Seq<char> {
    if bad_field_types(ins.args@, ins.args@.len()).len() == 0 {
        "\tfunction "@ + ins.name@ + "("@ + arg_list(ins.args@, ins.args@.len()) + ") external;\n"@
    } else {
        Seq::empty()
    }
}

pub open spec fn instruction_warnings(ins: Instruction) -> Seq<Seq<char>> {
    let bad = bad_field_types(ins.args@, ins.args@.len());
    if bad.len() == 0 {
        Seq::empty()
    } else {
        seq![
            "instructions "@ + ins.name@ + " has arguments of type "@ + join(bad, ", "@)
                + " which is not supported on Solidity"@,
        ]
    }
}

pub open spec fn types_text(tds: Seq<TypeDefinition>, k: nat) -> Seq<char>
    decreases k,
{
    if k == 0 {
        Seq::empty()
    } else {
        types_text(tds, (k - 1) as nat) + type_def_text(tds[k - 1])
    }
}

pub open spec fn types_warnings(tds: Seq<TypeDefinition>, k: nat) -> Seq<Seq<char>>
    decreases k,
{
    if k == 0 {
        Seq::empty()
    } else {
        types_warnings(tds, (k - 1) as nat) + type_def_warnings(tds[k - 1])
    }
}

pub open spec fn events_text(evs: Seq<Event>, k: nat) -> Seq<char>
    decreases k,
{
    if k == 0 {
        Seq::empty()
    } else {
        events_text(evs, (k - 1) as nat) + event_text(evs[k - 1])
    }
}

pub open spec fn events_warnings(evs: Seq<Event>, k: nat) -> Seq<Seq<char>>
    decreases k,
{
    if k == 0 {
        Seq::empty()
    } else {
        events_warnings(evs, (k - 1) as nat) + event_warnings(evs[k - 1])
    }
}

pub open spec fn instructions_text(ins: Seq<Instruction>, k: nat) -> Seq<char>
    decreases k,
{
    if k == 0 {
        Seq::empty()
    } else {
        instructions_text(ins, (k - 1) as nat) + instruction_text(ins[k - 1])
    }
}

pub open spec fn instructions_warnings(ins: Seq<Instruction>, k: nat) -> Seq<Seq<char>>
    decreases k,
{
    if k == 0 {
        Seq::empty()
    } else {
        instructions_warnings(ins, (k - 1) as nat) + instruction_warnings(ins[k - 1])
    }
}

/// The line that names the program's address, when the metadata has one.
pub open spec fn address_text(idl: Idl) -> Seq<char> {
    match program_address(idl) {
        Some(a) => "anchor_"@ + idl.name@ + " constant "@ + idl.name@ + " = anchor_"@ + idl.name@
            + "(address'"@ + a + "');\n\n"@,
        None => Seq::empty(),
    }
}

/// The whole Solidity text for an IDL.
pub open spec fn solidity_text(idl: Idl) -> Seq<char> {
    address_text(idl) + types_text(idl.types@, idl.types@.len()) + match idl.events {
        Some(evs) => events_text(evs@, evs@.len()),
        None => Seq::empty(),
    } + "interface anchor_"@ + idl.name@ + " {\n"@ + instructions_text(
        idl.instructions@,
        idl.instructions@.len(),
    ) + "}\n"@
}

/// The warnings, in order: defined types, events, instructions.
pub open spec fn solidity_warnings(idl: Idl) -> Seq<Seq<char>> {
    types_warnings(idl.types@, idl.types@.len()) + match idl.events {
        Some(evs) => events_warnings(evs@, evs@.len()),
        None => Seq::empty(),
    } + instructions_warnings(idl.instructions@, idl.instructions@.len())
}

/// Each integer type of the IDL is the Solidity integer type of the same
/// width and signedness: `uN` is `uintN` and `iN` is `intN`, written as the
/// compiler names those types.
pub proof fn lemma_integer_types()
    ensures
        sol_type(FieldType::U8) == Ok::<Seq<char>, Seq<char>>(type_text(Type::Uint(8))),
        sol_type(FieldType::I8) == Ok::<Seq<char>, Seq<char>>(type_text(Type::Int(8))),
        sol_type(FieldType::U16) == Ok::<Seq<char>, Seq<char>>(type_text(Type::Uint(16))),
        sol_type(FieldType::I16) == Ok::<Seq<char>, Seq<char>>(type_text(Type::Int(16))),
        sol_type(FieldType::U32) == Ok::<Seq<char>, Seq<char>>(type_text(Type::Uint(32))),
        sol_type(FieldType::I32) == Ok::<Seq<char>, Seq<char>>(type_text(Type::Int(32))),
        sol_type(FieldType::U64) == Ok::<Seq<char>, Seq<char>>(type_text(Type::Uint(64))),
        sol_type(FieldType::I64) == Ok::<Seq<char>, Seq<char>>(type_text(Type::Int(64))),
        sol_type(FieldType::U128) == Ok::<Seq<char>, Seq<char>>(type_text(Type::Uint(128))),
        sol_type(FieldType::I128) == Ok::<Seq<char>, Seq<char>>(type_text(Type::Int(128))),
{
    reveal_strlit("uint");
    reveal_strlit("int");
    reveal_strlit("uint8");
    reveal_strlit("int8");
    reveal_strlit("uint16");
    reveal_strlit("int16");
    reveal_strlit("uint32");
    reveal_strlit("int32");
    reveal_strlit("uint64");
    reveal_strlit("int64");
    reveal_strlit("uint128");
    reveal_strlit("int128");
    reveal_with_fuel(nat_decimal, 4);
    assert(nat_decimal(8) =~= seq!['8']);
    assert(nat_decimal(16) =~= seq!['1', '6']);
    assert(nat_decimal(32) =~= seq!['3', '2']);
    assert(nat_decimal(64) =~= seq!['6', '4']);
    assert(nat_decimal(12) =~= seq!['1', '2']);
    assert(nat_decimal(128) =~= seq!['1', '2', '8']);
    assert("uint8"@ =~= "uint"@ + nat_decimal(8));
    assert("int8"@ =~= "int"@ + nat_decimal(8));
    assert("uint16"@ =~= "uint"@ + nat_decimal(16));
    assert("int16"@ =~= "int"@ + nat_decimal(16));
    assert("uint32"@ =~= "uint"@ + nat_decimal(32));
    assert("int32"@ =~= "int"@ + nat_decimal(32));
    assert("uint64"@ =~= "uint"@ + nat_decimal(64));
    assert("int64"@ =~= "int"@ + nat_decimal(64));
    assert("uint128"@ =~= "uint"@ + nat_decimal(128));
    assert("int128"@ =~= "int"@ + nat_decimal(128));
}

/// An enum with a variant that carries fields, wherever that variant
/// stands, is left out of the Solidity text, with one warning; an enum
/// whose variants carry none is written out, without a warning.
pub proof fn lemma_enum_with_fields(td: TypeDefinition, i: int)
    requires
        td.ty matches TypeDefinitionKind::Enum { variants } && 0 <= i < variants@.len()
            && variants@[i].has_fields,
    ensures
        type_def_text(td) == Seq::<char>::empty(),
        type_def_warnings(td) == seq![
            "enum "@ + td.name@ + " has variants with fields, not supported in Solidity\n"@,
        ],
{
    let variants = td.ty->Enum_variants;
    assert(some_variant_has_fields(variants@)) by {
        assert(variants@[i].has_fields);
    }
}

/// An enum none of whose variants carries fields is written out as
/// `enum Name {` with its variants, and draws no warning.
pub proof fn lemma_enum_without_fields(td: TypeDefinition)
    requires
        td.ty matches TypeDefinitionKind::Enum { variants } && forall|i: int|
            0 <= i < variants@.len() ==> !(#[trigger] variants@[i]).has_fields,
    ensures
        type_def_text(td) == "enum "@ + td.name@ + " {"@ + enum_lines(
            td.ty->Enum_variants@,
            td.ty->Enum_variants@.len(),
        ) + "}\n"@,
        type_def_warnings(td) == Seq::<Seq<char>>::empty(),
{
}

/// Solidity has no optional type: an `Option` is never expressible. A
/// dynamic or fixed-size array is expressible exactly when its element type
/// is, and the text of its element type comes first either way.
pub proof fn lemma_container_types(t: FieldType, n: usize)
    ensures
        sol_type(FieldType::Option(Box::new(t))) is Err,
        sol_type(FieldType::Vec(Box::new(t))) is Ok <==> sol_type(t) is Ok,
        sol_type(FieldType::Array(Box::new(t), n)) is Ok <==> sol_type(t) is Ok,
        either(sol_type(FieldType::Vec(Box::new(t)))) == either(sol_type(t)) + "[]"@,
        either(sol_type(FieldType::Array(Box::new(t), n))) == either(sol_type(t)) + "["@
            + nat_decimal(n as nat) + "]"@,
{
}

pub open spec fn strings_view(v: Seq<String>) -> Seq<Seq<char>> {
    v.map_values(|s: String| s@)
}

/// The items of `list`, with `sep` between each two.
fn join_strings(list: &Vec<String>, sep: &str) -> (r: String)
    ensures
        r@ == join(strings_view(list@), sep@),
{
    let mut r = String::new();
    let mut i: usize = 0;
    while i < list.len()
        invariant
            i <= list@.len(),
            r@ == join(strings_view(list@.subrange(0, i as int)), sep@),
        decreases list@.len() - i,
    {
        let ghost prefix = strings_view(list@.subrange(0, i + 1));
        assert(prefix.drop_last() =~= strings_view(list@.subrange(0, i as int)));
        assert(prefix.last() == list@[i as int]@);
        if i > 0 {
            r.append(sep);
        }
        r.append(list[i].as_str());
        proof {
            if i == 0 {
                assert(prefix.len() == 1);
            }
        }
        i = i + 1;
    }
    assert(list@.subrange(0, list@.len() as int) =~= list@);
    r
}

/// The names of the types of `fields` that Solidity lacks.
fn field_bad_types(fields: &Vec<Field>) -> (r: Vec<String>)
    ensures
        strings_view(r@) == bad_field_types(fields@, fields@.len()),
{
    let mut r: Vec<String> = Vec::new();
    let mut i: usize = 0;
    while i < fields.len()
        invariant
            i <= fields@.len(),
            strings_view(r@) == bad_field_types(fields@, i as nat),
        decreases fields@.len() - i,
    {
        match idltype_to_solidity(&fields[i].ty) {
            Ok(_) => {},
            Err(t) => {
                r.push(t);
            },
        }
        assert(strings_view(r@) =~= bad_field_types(fields@, (i + 1) as nat));
        i = i + 1;
    }
    r
}

/// The names of the types of event `fields` that Solidity lacks.
fn event_bad_types(fields: &Vec<EventField>) -> (r: Vec<String>)
    ensures
        strings_view(r@) == bad_event_types(fields@, fields@.len()),
{
    let mut r: Vec<String> = Vec::new();
    let mut i: usize = 0;
    while i < fields.len()
        invariant
            i <= fields@.len(),
            strings_view(r@) == bad_event_types(fields@, i as nat),
        decreases fields@.len() - i,
    {
        match idltype_to_solidity(&fields[i].ty) {
            Ok(_) => {},
            Err(t) => {
                r.push(t);
            },
        }
        assert(strings_view(r@) =~= bad_event_types(fields@, (i + 1) as nat));
        i = i + 1;
    }
    r
}

/// Appends a warning.
fn warn(warnings: &mut Vec<String>, w: String)
    ensures
        strings_view(final(warnings)@) == strings_view(old(warnings)@).push(w@),
{
    warnings.push(w);
    assert(strings_view(warnings@) =~= strings_view(old(warnings)@).push(w@));
}

/// Writes a defined type, or warns that Solidity cannot express it.
fn write_type_definition(td: &TypeDefinition, out: &mut String, warnings: &mut Vec<String>)
    ensures
        final(out)@ == old(out)@ + type_def_text(*td),
        strings_view(final(warnings)@) == strings_view(old(warnings)@) + type_def_warnings(*td),
{
    match &td.ty {
        TypeDefinitionKind::Enum { variants } => {
            let mut has_fields = false;
            let mut j: usize = 0;
            while j < variants.len()
                invariant
                    j <= variants@.len(),
                    has_fields <==> exists|k: int| 0 <= k < j && #[trigger] variants@[k].has_fields,
                decreases variants@.len() - j,
            {
                if variants[j].has_fields {
                    has_fields = true;
                }
                j = j + 1;
            }
            if has_fields {
                let mut w = String::from_str("enum ");
                w.append(td.name.as_str());
                w.append(" has variants with fields, not supported in Solidity\n");
                warn(warnings, w);
                assert(out@ =~= old(out)@ + type_def_text(*td));
            } else {
                out.append("enum ");
                out.append(td.name.as_str());
                out.append(" {");
                let mut i: usize = 0;
                while i < variants.len()
                    invariant
                        i <= variants@.len(),
                        out@ == old(out)@ + "enum "@ + td.name@ + " {"@ + enum_lines(variants@, i as nat),
                    decreases variants@.len() - i,
                {
                    out.append("\t");
                    out.append(variants[i].name.as_str());
                    if i + 1 < variants.len() {
                        out.append(",");
                    }
                    out.append("\n");
                    assert(out@ =~= old(out)@ + "enum "@ + td.name@ + " {"@ + enum_lines(variants@, (i + 1) as nat));
                    i = i + 1;
                }
                out.append("}\n");
                assert(out@ =~= old(out)@ + type_def_text(*td));
                assert(strings_view(warnings@) =~= strings_view(old(warnings)@) + type_def_warnings(*td));
            }
        },
        TypeDefinitionKind::Struct { fields } => {
            let badtys = field_bad_types(fields);
            if badtys.len() == 0 {
                out.append("struct ");
                out.append(td.name.as_str());
                out.append(" {\n");
                let mut i: usize = 0;
                while i < fields.len()
                    invariant
                        i <= fields@.len(),
                        out@ == old(out)@ + "struct "@ + td.name@ + " {\n"@ + struct_lines(fields@, i as nat),
                    decreases fields@.len() - i,
                {
                    out.append("\t");
                    out.append(fields[i].name.as_str());
                    out.append("\t");
                    let ty = match idltype_to_solidity(&fields[i].ty) {
                        Ok(t) => t,
                        Err(t) => t,
                    };
                    out.append(ty.as_str());
                    if i + 1 < fields.len() {
                        out.append(",");
                    }
                    out.append("\n");
                    assert(out@ =~= old(out)@ + "struct "@ + td.name@ + " {\n"@ + struct_lines(fields@, (i + 1) as nat));
                    i = i + 1;
                }
                out.append("}\n");
                assert(out@ =~= old(out)@ + type_def_text(*td));
                assert(strings_view(warnings@) =~= strings_view(old(warnings)@) + type_def_warnings(*td));
            } else {
                let mut w = String::from_str("struct ");
                w.append(td.name.as_str());
                w.append(" has fields of type ");
                let joined = join_strings(&badtys, ", ");
                w.append(joined.as_str());
                w.append(" which is not supported on Solidity");
                warn(warnings, w);
                assert(out@ =~= old(out)@ + type_def_text(*td));
            }
        },
    }
}

/// Writes an event, or warns that Solidity cannot express it.
#[verifier::rlimit(40)]
fn write_event(ev: &Event, out: &mut String, warnings: &mut Vec<String>)
    ensures
        final(out)@ == old(out)@ + event_text(*ev),
        strings_view(final(warnings)@) == strings_view(old(warnings)@) + event_warnings(*ev),
{
    let badtys = event_bad_types(&ev.fields);
    if badtys.len() == 0 {
        out.append("event ");
        out.append(ev.name.as_str());
        out.append(" {\n");
        let mut i: usize = 0;
        while i < ev.fields.len()
            invariant
                i <= ev.fields@.len(),
                out@ == old(out)@ + "event "@ + ev.name@ + " {\n"@ + event_lines(ev.fields@, i as nat),
            decreases ev.fields@.len() - i,
        {
            out.append("\t");
            let ty = match idltype_to_solidity(&ev.fields[i].ty) {
                Ok(t) => t,
                Err(t) => t,
            };
            out.append(ty.as_str());
            out.append("\t");
            if ev.fields[i].index {
                out.append(" indexed ");
            } else {
                out.append(" ");
            }
            out.append(ev.fields[i].name.as_str());
            if i + 1 < ev.fields.len() {
                out.append(",");
            }
            out.append("\n");
            assert(out@ =~= old(out)@ + "event "@ + ev.name@ + " {\n"@ + event_lines(ev.fields@, (i + 1) as nat));
            i = i + 1;
        }
        out.append("}\n");
        assert(out@ =~= old(out)@ + event_text(*ev));
        assert(strings_view(warnings@) =~= strings_view(old(warnings)@) + event_warnings(*ev));
    } else {
        let mut w = String::from_str("event ");
        w.append(ev.name.as_str());
        w.append(" has fields of type ");
        let joined = join_strings(&badtys, ", ");
        w.append(joined.as_str());
        w.append(" which is not supported on Solidity");
        warn(warnings, w);
        assert(out@ =~= old(out)@ + event_text(*ev));
    }
}

/// Writes the interface function of an instruction, or warns that Solidity
/// cannot express it.
fn write_instruction(ins: &Instruction, out: &mut String, warnings: &mut Vec<String>)
    ensures
        final(out)@ == old(out)@ + instruction_text(*ins),
        strings_view(final(warnings)@) == strings_view(old(warnings)@) + instruction_warnings(*ins),
{
    let badtys = field_bad_types(&ins.args);
    if badtys.len() == 0 {
        out.append("\tfunction ");
        out.append(ins.name.as_str());
        out.append("(");
        let mut i: usize = 0;
        while i < ins.args.len()
            invariant
                i <= ins.args@.len(),
                out@ == old(out)@ + "\tfunction "@ + ins.name@ + "("@ + arg_list(ins.args@, i as nat),
            decreases ins.args@.len() - i,
        {
            let ty = match idltype_to_solidity(&ins.args[i].ty) {
                Ok(t) => t,
                Err(t) => t,
            };
            out.append(ty.as_str());
            out.append(" ");
            out.append(ins.args[i].name.as_str());
            if i + 1 < ins.args.len() {
                out.append(",");
            }
            assert(out@ =~= old(out)@ + "\tfunction "@ + ins.name@ + "("@ + arg_list(ins.args@, (i + 1) as nat));
            i = i + 1;
        }
        out.append(") external;\n");
        assert(out@ =~= old(out)@ + instruction_text(*ins));
        assert(strings_view(warnings@) =~= strings_view(old(warnings)@) + instruction_warnings(*ins));
    } else {
        let mut w = String::from_str("instructions ");
        w.append(ins.name.as_str());
        w.append(" has arguments of type ");
        let joined = join_strings(&badtys, ", ");
        w.append(joined.as_str());
        w.append(" which is not supported on Solidity");
        warn(warnings, w);
        assert(out@ =~= old(out)@ + instruction_text(*ins));
    }
}

/// The Solidity text for an IDL: the program's address when the metadata
/// gives one, each defined type and event that Solidity can express, and an
/// interface with a function for each instruction whose arguments it can
/// express; a warning for each thing left out.
pub fn write_solidity(idl: &Idl) -> (r: SolidityFile)
    ensures
        r.text@ == solidity_text(*idl),
        strings_view(r.warnings@) == solidity_warnings(*idl),
{
    let mut out = String::new();
    let mut warnings: Vec<String> = Vec::new();
    if let Some(program_id) = program_id(idl) {
        out.append("anchor_");
        out.append(idl.name.as_str());
        out.append(" constant ");
        out.append(idl.name.as_str());
        out.append(" = anchor_");
        out.append(idl.name.as_str());
        out.append("(address'");
        out.append(program_id.as_str());
        out.append("');\n\n");
    }
    assert(out@ =~= address_text(*idl));
    assert(strings_view(warnings@) =~= Seq::<Seq<char>>::empty());
    let ghost header = out@;
    let mut i: usize = 0;
    while i < idl.types.len()
        invariant
            i <= idl.types@.len(),
            out@ == header + types_text(idl.types@, i as nat),
            strings_view(warnings@) == types_warnings(idl.types@, i as nat),
        decreases idl.types@.len() - i,
    {
        write_type_definition(&idl.types[i], &mut out, &mut warnings);
        assert(out@ =~= header + types_text(idl.types@, (i + 1) as nat));
        assert(strings_view(warnings@) =~= types_warnings(idl.types@, (i + 1) as nat));
        i = i + 1;
    }
    let ghost after_types = out@;
    let ghost type_warnings = strings_view(warnings@);
    if let Some(events) = &idl.events {
        let mut i: usize = 0;
        while i < events.len()
            invariant
                i <= events@.len(),
                out@ == after_types + events_text(events@, i as nat),
                strings_view(warnings@) == type_warnings + events_warnings(events@, i as nat),
            decreases events@.len() - i,
        {
            write_event(&events[i], &mut out, &mut warnings);
            assert(out@ =~= after_types + events_text(events@, (i + 1) as nat));
            assert(strings_view(warnings@) =~= type_warnings + events_warnings(events@, (i + 1) as nat));
            i = i + 1;
        }
    } else {
        assert(out@ =~= after_types + Seq::<char>::empty());
        assert(strings_view(warnings@) =~= type_warnings + Seq::<Seq<char>>::empty());
    }
    let ghost before_interface = out@;
    let ghost warnings_before = strings_view(warnings@);
    out.append("interface anchor_");
    out.append(idl.name.as_str());
    out.append(" {\n");
    let ghost opened = out@;
    let mut i: usize = 0;
    while i < idl.instructions.len()
        invariant
            i <= idl.instructions@.len(),
            out@ == opened + instructions_text(idl.instructions@, i as nat),
            strings_view(warnings@) == warnings_before + instructions_warnings(idl.instructions@, i as nat),
        decreases idl.instructions@.len() - i,
    {
        write_instruction(&idl.instructions[i], &mut out, &mut warnings);
        assert(out@ =~= opened + instructions_text(idl.instructions@, (i + 1) as nat));
        assert(strings_view(warnings@) =~= warnings_before + instructions_warnings(idl.instructions@, (i + 1) as nat));
        i = i + 1;
    }
    out.append("}\n");
    assert(out@ =~= solidity_text(*idl));
    assert(strings_view(warnings@) =~= solidity_warnings(*idl));
    SolidityFile { text: out, warnings }
}

} // verus!
