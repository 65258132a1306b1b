use vstd::prelude::*;

use crate::decode::field_view;
use crate::json::{entries_model, lemma_object_view, Json, JsonModel, Member};
use crate::schema::{
    opt_text, texts, Attributes, AttributesModel, ComplexType, Entries, Field, FieldModel,
    PrimitiveType, Schema, SchemaModel, Text, TypeName, TypeNameModel,
};

use vstd::string::*;

verus! {

broadcast use vstd::std_specs::vec::axiom_vec_index_decreases;

/// The reserved word of a primitive type.
pub open spec fn primitive_word(p: PrimitiveType) -> Text {
    match p {
        PrimitiveType::Null => "null"@,
        PrimitiveType::Boolean => "boolean"@,
        PrimitiveType::Int => "int"@,
        PrimitiveType::Long => "long"@,
        PrimitiveType::Float => "float"@,
        PrimitiveType::Double => "double"@,
        PrimitiveType::Bytes => "bytes"@,
        PrimitiveType::String => "string"@,
    }
}

/// The text of a type name: the reserved word, or the reference as written.
pub open spec fn name_text(t: TypeNameModel) -> Text {
    match t {
        TypeNameModel::Primitive(p) => primitive_word(p),
        TypeNameModel::Ref(s) => s,
    }
}

pub open spec fn text_entry(k: Text, v: Text) -> Entries {
    seq![(k, JsonModel::Str(v))]
}

/// An entry for an optional text; none when it is absent.
pub open spec fn opt_entry(k: Text, o: Option<Text>) -> Entries {
    match o {
        Some(v) => text_entry(k, v),
        None => Seq::empty(),
    }
}

pub open spec fn text_array(v: Seq<Text>) -> JsonModel {
    JsonModel::Array(Seq::new(v.len(), |i: int| JsonModel::Str(v[i])))
}

/// The logical type, then the open attributes, as sibling entries.
pub open spec fn attribute_entries(a: AttributesModel) -> Entries {
    opt_entry("logicalType"@, a.logical_type) + a.additional
}

pub open spec fn digit_text(d: nat) -> Text {
    if d == 0 {
        "0"@
    } else if d == 1 {
        "1"@
    } else if d == 2 {
        "2"@
    } else if d == 3 {
        "3"@
    } else if d == 4 {
        "4"@
    } else if d == 5 {
        "5"@
    } else if d == 6 {
        "6"@
    } else if d == 7 {
        "7"@
    } else if d == 8 {
        "8"@
    } else {
        "9"@
    }
}

/// The decimal digits of `n`, most significant first.
pub open spec fn decimal_text(n: nat) -> Text
    decreases n,
{
    if n < 10 {
        digit_text(n)
    } else {
        decimal_text(n / 10) + digit_text(n % 10)
    }
}

/// The JSON form of a record field.
pub open spec fn field_json(f: FieldModel) -> JsonModel
    decreases f, 0int,
{
    JsonModel::Object(
        text_entry("name"@, f.name) + opt_entry("doc"@, f.doc) + seq![("type"@, encode_model(f.field_type))]
            + opt_entry("default"@, f.default),
    )
}

/// The JSON form of a schema: names as strings, unions as arrays, declarations
/// as objects with "type" first, their own members next and attributes last.
pub open spec fn encode_model(s: SchemaModel) -> JsonModel
    decreases s, 1int,
{
    match s {
        SchemaModel::TypeName(t) => JsonModel::Str(name_text(t)),
        SchemaModel::Union(v) => JsonModel::Array(
            Seq::new(v.len(), |i: int| if 0 <= i < v.len() { encode_model(v[i]) } else { JsonModel::Null }),
        ),
        SchemaModel::Record { name, namespace, doc, aliases, fields, attributes } => JsonModel::Object(
            text_entry("type"@, "record"@) + text_entry("name"@, name) + opt_entry("namespace"@, namespace)
                + opt_entry("doc"@, doc) + seq![("aliases"@, text_array(aliases))]
                + seq![("fields"@, JsonModel::Array(Seq::new(fields.len(), |i: int| if 0 <= i < fields.len() { field_json(fields[i]) } else { JsonModel::Null })))]
                + attribute_entries(attributes),
        ),
        SchemaModel::Enum { name, namespace, doc, aliases, symbols, default, attributes } => JsonModel::Object(
            text_entry("type"@, "enum"@) + text_entry("name"@, name) + opt_entry("namespace"@, namespace)
                + opt_entry("doc"@, doc) + seq![("aliases"@, text_array(aliases))]
                + seq![("symbols"@, text_array(symbols))] + opt_entry("default"@, default)
                + attribute_entries(attributes),
        ),
        SchemaModel::Array { items, attributes } => JsonModel::Object(
            text_entry("type"@, "array"@) + seq![("items"@, encode_model(*items))] + attribute_entries(attributes),
        ),
        SchemaModel::MapType { values, attributes } => JsonModel::Object(
            text_entry("type"@, "map"@) + seq![("values"@, encode_model(*values))] + attribute_entries(attributes),
        ),
        SchemaModel::Fixed { name, namespace, aliases, size, attributes } => JsonModel::Object(
            text_entry("type"@, "fixed"@) + text_entry("name"@, name) + opt_entry("namespace"@, namespace)
                + seq![("aliases"@, text_array(aliases))] + seq![("size"@, JsonModel::Number(decimal_text(size)))]
                + attribute_entries(attributes),
        ),
        SchemaModel::Type { base, attributes } => JsonModel::Object(
            text_entry("type"@, name_text(base)) + attribute_entries(attributes),
        ),
    }
}

// ---------------------------------------------------------------------------
// Executable encoding
// ---------------------------------------------------------------------------

/// The reserved word of a primitive type.
pub fn primitive_text(p: PrimitiveType) -> (r: &'static str)
    ensures
        r@ == primitive_word(p),
{
    match p {
        PrimitiveType::Null => "null",
        PrimitiveType::Boolean => "boolean",
        PrimitiveType::Int => "int",
        PrimitiveType::Long => "long",
        PrimitiveType::Float => "float",
        PrimitiveType::Double => "double",
        PrimitiveType::Bytes => "bytes",
        PrimitiveType::String => "string",
    }
}

/// The text of a type name.
pub fn name_string(t: &TypeName) -> (r: String)
    ensures
        r@ == name_text(t@),
{
    match t {
        TypeName::Primitive(p) => primitive_text(*p).to_owned(),
        TypeName::Ref(s) => s.clone(),
    }
}

fn digit_str(d: usize) -> (r: &'static str)
    requires
        d < 10,
    ensures
        r@ == digit_text(d as nat),
{
    if d == 0 {
        "0"
    } else if d == 1 {
        "1"
    } else if d == 2 {
        "2"
    } else if d == 3 {
        "3"
    } else if d == 4 {
        "4"
    } else if d == 5 {
        "5"
    } else if d == 6 {
        "6"
    } else if d == 7 {
        "7"
    } else if d == 8 {
        "8"
    } else {
        "9"
    }
}

/// The decimal digits of `n`.
pub fn size_text(n: usize) -> (r: String)
    ensures
        r@ == decimal_text(n as nat),
    decreases n,
{
    if n < 10 {
        digit_str(n).to_owned()
    } else {
        let mut s = size_text(n / 10);
        s.append(digit_str(n % 10));
        s
    }
}

fn push_entry(out: &mut Vec<Member>, k: &str, value: Json)
    ensures
        entries_model(*final(out)) == entries_model(*old(out)) + seq![(k@, value@)],
{
    out.push(Member { key: k.to_owned(), value });
    proof {
        assert(entries_model(*out) =~= entries_model(*old(out)) + seq![(k@, value@)]);
    }
}

fn push_text(out: &mut Vec<Member>, k: &str, v: &str)
    ensures
        entries_model(*final(out)) == entries_model(*old(out)) + text_entry(k@, v@),
{
    push_entry(out, k, Json::Str(v.to_owned()));
}

fn push_opt(out: &mut Vec<Member>, k: &str, o: &Option<String>)
    ensures
        entries_model(*final(out)) == entries_model(*old(out)) + opt_entry(k@, opt_text(*o)),
{
    match o {
        Some(v) => push_text(out, k, v.as_str()),
        None => {
            assert(entries_model(*out) =~= entries_model(*out) + Seq::<(Text, JsonModel)>::empty());
        },
    }
}

fn text_array_json(v: &Vec<String>) -> (r: Json)
    ensures
        r@ == text_array(texts(*v)),
{
    let mut out: Vec<Json> = Vec::new();
    let mut i: usize = 0;
    while i < v.len()
        invariant
            i <= v@.len(),
            out@.len() == i,
            forall|q: int| 0 <= q < i ==> (#[trigger] out@[q])@ == JsonModel::Str(v@[q]@),
        decreases v@.len() - i,
    {
        out.push(Json::Str(v[i].clone()));
        i = i + 1;
    }
    let r = Json::Array(out);
    proof {
        assert(r@->Array_0 =~= text_array(texts(*v))->Array_0);
    }
    r
}

fn push_attributes(out: &mut Vec<Member>, a: &Attributes)
    ensures
        entries_model(*final(out)) == entries_model(*old(out)) + attribute_entries(a@),
{
    push_opt(out, "logicalType", &a.logical_type);
    let ghost start = entries_model(*out);
    let ghost extra = entries_model(a.additional);
    let mut i: usize = 0;
    while i < a.additional.len()
        invariant
            i <= a.additional@.len(),
            extra == entries_model(a.additional),
            entries_model(*out) == start + extra.take(i as int),
        decreases a.additional@.len() - i,
    {
        let value = a.additional[i].value.deep_copy();
        push_entry(out, a.additional[i].key.as_str(), value);
        proof {
            assert(extra.take(i + 1) =~= extra.take(i as int).push(extra[i as int]));
            assert(start + extra.take(i + 1) =~= start + extra.take(i as int) + seq![extra[i as int]]);
        }
        i = i + 1;
    }
    proof {
        assert(extra.take(i as int) =~= extra);
        assert(entries_model(*out) =~= entries_model(*old(out)) + attribute_entries(a@));
    }
}

/// The JSON form of a record field.
fn encode_field(f: &Field) -> (r: Json)
    ensures
        r@ == field_json(field_view(*f)),
    decreases f, 0int,
{
    let mut out: Vec<Member> = Vec::new();
    push_text(&mut out, "name", f.name.as_str());
    push_opt(&mut out, "doc", &f.doc);
    let t = encode(&f.field_type);
    push_entry(&mut out, "type", t);
    push_opt(&mut out, "default", &f.default);
    proof {
        lemma_object_view(out);
        assert(entries_model(out) =~= field_json(field_view(*f))->Object_0);
    }
    Json::Object(out)
}

/// Encodes a schema as JSON; decoding the result gives the schema back.
pub fn encode(s: &Schema) -> (r: Json)
    ensures
        r@ == encode_model(s@),
    decreases s, 1int,
{
    match s {
        Schema::TypeName(t) => Json::Str(name_string(t)),
        Schema::Union(v) => {
            let ghost vm = s@->Union_0;
            let mut out: Vec<Json> = Vec::new();
            let mut i: usize = 0;
            while i < v.len()
                invariant
                    *s == Schema::Union(*v),
                    vm == s@->Union_0,
                    vm.len() == v@.len(),
                    i <= v@.len(),
                    out@.len() == i,
                    forall|q: int| 0 <= q < i ==> (#[trigger] out@[q])@ == encode_model(vm[q]),
                decreases v@.len() - i,
            {
                assert(vm[i as int] == v@[i as int]@);
                proof {
                    assert(decreases_to!(v => v[i as int]));
                }
                out.push(encode(&v[i]));
                i = i + 1;
            }
            let r = Json::Array(out);
            proof {
                assert(r@->Array_0 =~= encode_model(s@)->Array_0);
            }
            r
        },
        Schema::Complex(ComplexType::Record(rec)) => {
            let mut out: Vec<Member> = Vec::new();
            push_text(&mut out, "type", "record");
            push_text(&mut out, "name", rec.name.as_str());
            push_opt(&mut out, "namespace", &rec.namespace);
            push_opt(&mut out, "doc", &rec.doc);
            push_entry(&mut out, "aliases", text_array_json(&rec.aliases));
            let ghost fm = s@->fields;
            let mut fields: Vec<Json> = Vec::new();
            let mut i: usize = 0;
            while i < rec.fields.len()
                invariant
                    *s == Schema::Complex(ComplexType::Record(*rec)),
                    fm == s@->fields,
                    fm.len() == rec.fields@.len(),
                    i <= rec.fields@.len(),
                    fields@.len() == i,
                    forall|q: int| 0 <= q < i ==> (#[trigger] fields@[q])@ == field_json(fm[q]),
                decreases rec.fields@.len() - i,
            {
                assert(fm[i as int] == field_view(rec.fields@[i as int]));
                proof {
                    assert(decreases_to!(rec.fields => rec.fields[i as int]));
                }
                fields.push(encode_field(&rec.fields[i]));
                i = i + 1;
            }
            let fj = Json::Array(fields);
            let ghost pre = entries_model(out);
            proof {
                let target = encode_model(s@)->Object_0;
                assert(target[pre.len() as int].0 == "fields"@);
                assert(fj@->Array_0 =~= target[pre.len() as int].1->Array_0);
            }
            push_entry(&mut out, "fields", fj);
            push_attributes(&mut out, &rec.attributes);
            proof {
                lemma_object_view(out);
                assert(entries_model(out) =~= encode_model(s@)->Object_0);
            }
            Json::Object(out)
        },
        Schema::Complex(ComplexType::Enum(en)) => {
            let mut out: Vec<Member> = Vec::new();
            push_text(&mut out, "type", "enum");
            push_text(&mut out, "name", en.name.as_str());
            push_opt(&mut out, "namespace", &en.namespace);
            push_opt(&mut out, "doc", &en.doc);
            push_entry(&mut out, "aliases", text_array_json(&en.aliases));
            push_entry(&mut out, "symbols", text_array_json(&en.symbols));
            push_opt(&mut out, "default", &en.default);
            push_attributes(&mut out, &en.attributes);
            proof {
                lemma_object_view(out);
                assert(entries_model(out) =~= encode_model(s@)->Object_0);
            }
            Json::Object(out)
        },
        Schema::Complex(ComplexType::Array(a)) => {
            let mut out: Vec<Member> = Vec::new();
            push_text(&mut out, "type", "array");
            push_entry(&mut out, "items", encode(&a.items));
            push_attributes(&mut out, &a.attributes);
            proof {
                lemma_object_view(out);
                assert(entries_model(out) =~= encode_model(s@)->Object_0);
            }
            Json::Object(out)
        },
        Schema::Complex(ComplexType::MapType(m)) => {
            let mut out: Vec<Member> = Vec::new();
            push_text(&mut out, "type", "map");
            push_entry(&mut out, "values", encode(&m.values));
            push_attributes(&mut out, &m.attributes);
            proof {
                lemma_object_view(out);
                assert(entries_model(out) =~= encode_model(s@)->Object_0);
            }
            Json::Object(out)
        },
        Schema::Complex(ComplexType::Fixed(f)) => {
            let mut out: Vec<Member> = Vec::new();
            push_text(&mut out, "type", "fixed");
            push_text(&mut out, "name", f.name.as_str());
            push_opt(&mut out, "namespace", &f.namespace);
            push_entry(&mut out, "aliases", text_array_json(&f.aliases));
            push_entry(&mut out, "size", Json::Number(size_text(f.size)));
            push_attributes(&mut out, &f.attributes);
            proof {
                lemma_object_view(out);
                assert(entries_model(out) =~= encode_model(s@)->Object_0);
            }
            Json::Object(out)
        },
        Schema::Type(t) => {
            let mut out: Vec<Member> = Vec::new();
            let base = name_string(&t.base);
            push_text(&mut out, "type", base.as_str());
            push_attributes(&mut out, &t.attributes);
            proof {
                lemma_object_view(out);
                assert(entries_model(out) =~= encode_model(s@)->Object_0);
            }
            Json::Object(out)
        },
    }
}

} // verus!
