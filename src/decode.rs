use vstd::prelude::*;

use crate::json::{entries_model, lemma_object_view, Json, JsonModel, Member};
use crate::schema::{
    opt_text, texts, Array, Attributes, AttributesModel, ComplexType, Entries, Enum, Field,
    FieldModel, Fixed, MapType, PrimitiveType, Record, Schema, SchemaModel, Text, Type, TypeName,
    TypeNameModel,
};
use crate::text::text_eq;
use vstd::string::*;

verus! {

/// The primitive type spelled by `s`, if `s` is one of the reserved words.
pub open spec fn primitive_of(s: Text) -> Option<PrimitiveType> {
    if s == "null"@ {
        Some(PrimitiveType::Null)
    } else if s == "boolean"@ {
        Some(PrimitiveType::Boolean)
    } else if s == "int"@ {
        Some(PrimitiveType::Int)
    } else if s == "long"@ {
        Some(PrimitiveType::Long)
    } else if s == "float"@ {
        Some(PrimitiveType::Float)
    } else if s == "double"@ {
        Some(PrimitiveType::Double)
    } else if s == "bytes"@ {
        Some(PrimitiveType::Bytes)
    } else if s == "string"@ {
        Some(PrimitiveType::String)
    } else {
        None
    }
}

/// A bare name: a primitive type when reserved, else a reference kept as written.
pub open spec fn type_name_of(s: Text) -> TypeNameModel {
    match primitive_of(s) {
        Some(p) => TypeNameModel::Primitive(p),
        None => TypeNameModel::Ref(s),
    }
}

/// Keys that the declarations themselves consume; they never reach the open attributes.
pub open spec fn is_reserved(k: Text) -> bool {
    k == "name"@ || k == "namespace"@ || k == "doc"@ || k == "aliases"@ || k == "fields"@
        || k == "symbols"@ || k == "default"@ || k == "size"@ || k == "items"@ || k == "values"@
        || k == "type"@ || k == "logicalType"@
}

/// Tags that select a complex type.
pub open spec fn is_complex_tag(t: Text) -> bool {
    t == "record"@ || t == "enum"@ || t == "array"@ || t == "map"@ || t == "fixed"@
}

/// Index of the first entry at or after `i` whose key is `k`.
pub open spec fn key_from(e: Entries, k: Text, i: int) -> Option<int>
    decreases e.len() - i,
{
    if i < 0 || i >= e.len() {
        None
    } else if e[i].0 == k {
        Some(i)
    } else {
        key_from(e, k, i + 1)
    }
}

pub open spec fn key_index(e: Entries, k: Text) -> Option<int> {
    key_from(e, k, 0)
}

/// The value of the first entry with key `k`.
pub open spec fn member(e: Entries, k: Text) -> Option<JsonModel> {
    match key_index(e, k) {
        Some(i) => if 0 <= i < e.len() { Some(e[i].1) } else { None },
        None => None,
    }
}

/// An optional text member: absent or null gives `None`; a value of another kind fails.
pub open spec fn opt_text_member(e: Entries, k: Text) -> Option<Option<Text>> {
    match member(e, k) {
        None => Some(None),
        Some(JsonModel::Null) => Some(None),
        Some(JsonModel::Str(s)) => Some(Some(s)),
        Some(_) => None,
    }
}

/// A required text member.
pub open spec fn req_text_member(e: Entries, k: Text) -> Option<Text> {
    match member(e, k) {
        Some(JsonModel::Str(s)) => Some(s),
        _ => None,
    }
}

/// An array of strings.
pub open spec fn text_list(j: JsonModel) -> Option<Seq<Text>> {
    match j {
        JsonModel::Array(v) => if forall|i: int| 0 <= i < v.len() ==> (#[trigger] v[i]) is Str {
            Some(Seq::new(v.len(), |i: int| v[i]->Str_0))
        } else {
            None
        },
        _ => None,
    }
}

/// The alias list: empty when absent or null.
pub open spec fn aliases_member(e: Entries) -> Option<Seq<Text>> {
    match member(e, "aliases"@) {
        None => Some(Seq::empty()),
        Some(JsonModel::Null) => Some(Seq::empty()),
        Some(j) => text_list(j),
    }
}

/// The entries at or after `i` whose keys are not reserved, in order.
pub open spec fn open_from(e: Entries, i: int) -> Entries
    decreases e.len() - i,
{
    if i < 0 || i >= e.len() {
        Seq::empty()
    } else if is_reserved(e[i].0) {
        open_from(e, i + 1)
    } else {
        seq![e[i]] + open_from(e, i + 1)
    }
}

pub open spec fn attributes_of(e: Entries) -> Option<AttributesModel> {
    match opt_text_member(e, "logicalType"@) {
        Some(lt) => Some(AttributesModel { logical_type: lt, additional: open_from(e, 0) }),
        None => None,
    }
}

pub open spec fn digit_value(c: char) -> nat {
    (c as u32 - '0' as u32) as nat
}

pub open spec fn is_digit(c: char) -> bool {
    '0' <= c <= '9'
}

/// The number written by a string of decimal digits.
pub open spec fn digits_value(t: Text) -> nat
    decreases t.len(),
{
    if t.len() == 0 {
        0
    } else {
        digits_value(t.drop_last()) * 10 + digit_value(t.last())
    }
}

/// A byte count: a non-empty run of decimal digits that fits in `usize`.
pub open spec fn size_of(j: JsonModel) -> Option<nat> {
    match j {
        JsonModel::Number(t) => if t.len() > 0 && (forall|i: int| 0 <= i < t.len() ==> is_digit(#[trigger] t[i]))
            && digits_value(t) <= usize::MAX {
            Some(digits_value(t))
        } else {
            None
        },
        _ => None,
    }
}

/// Puts `p` in front of a decoded sequence, keeping a failure.
pub open spec fn prepend<A>(p: Seq<A>, o: Option<Seq<A>>) -> Option<Seq<A>> {
    match o {
        Some(r) => Some(p + r),
        None => None,
    }
}

/// Decoding of one JSON value into a schema; `None` where the value is no schema.
pub open spec fn decode_model(j: JsonModel) -> Option<SchemaModel>
    decreases j, 3int, 0int,
{
    match j {
        JsonModel::Str(s) => Some(SchemaModel::TypeName(type_name_of(s))),
        JsonModel::Array(v) => match union_model(j, 0) {
            Some(alternatives) => Some(SchemaModel::Union(alternatives)),
            None => None,
        },
        JsonModel::Object(e) => match member(e, "type"@) {
            Some(JsonModel::Str(t)) => if is_complex_tag(t) {
                complex_model(j, t)
            } else {
                match attributes_of(e) {
                    Some(a) => Some(SchemaModel::Type { base: type_name_of(t), attributes: a }),
                    None => None,
                }
            },
            _ => None,
        },
        _ => None,
    }
}

/// Decoding of the elements at and after `i` of the array `j`, each as a schema.
pub open spec fn union_model(j: JsonModel, i: int) -> Option<Seq<SchemaModel>>
    decreases j, 2int, j->Array_0.len() - i,
{
    match j {
        JsonModel::Array(v) => if 0 <= i < v.len() {
            match decode_model(v[i]) {
                Some(s) => prepend(seq![s], union_model(j, i + 1)),
                None => None,
            }
        } else {
            Some(Seq::empty())
        },
        _ => None,
    }
}

/// The nested schema under key `k` of the object `j`.
pub open spec fn nested_model(j: JsonModel, k: Text) -> Option<SchemaModel>
    decreases j, 0int, 0int,
{
    match j {
        JsonModel::Object(e) => match key_index(e, k) {
            Some(i) => if 0 <= i < e.len() { decode_model(e[i].1) } else { None },
            None => None,
        },
        _ => None,
    }
}

/// Decoding of one record field.
pub open spec fn field_model(j: JsonModel) -> Option<FieldModel>
    decreases j, 1int, 0int,
{
    match j {
        JsonModel::Object(e) => match (req_text_member(e, "name"@), opt_text_member(e, "doc"@),
            nested_model(j, "type"@), opt_text_member(e, "default"@)) {
            (Some(name), Some(doc), Some(t), Some(default)) => Some(FieldModel { name, doc, field_type: t, default }),
            _ => None,
        },
        _ => None,
    }
}

/// The array under the "fields" member of `j`, if there is one.
pub open spec fn field_list(j: JsonModel) -> Option<Seq<JsonModel>> {
    match j {
        JsonModel::Object(e) => match member(e, "fields"@) {
            Some(JsonModel::Array(fs)) => Some(fs),
            _ => None,
        },
        _ => None,
    }
}

/// Decoding of the record fields at and after `i` of the "fields" member of `j`.
pub open spec fn fields_from(j: JsonModel, i: int) -> Option<Seq<FieldModel>>
    decreases j, 0int, (match field_list(j) { Some(fs) => fs.len(), None => 0 }) - i,
{
    match j {
        JsonModel::Object(e) => match key_index(e, "fields"@) {
            Some(k) => if 0 <= k < e.len() {
                match e[k].1 {
                    JsonModel::Array(fs) => if 0 <= i < fs.len() {
                        match field_model(fs[i]) {
                            Some(f) => prepend(seq![f], fields_from(j, i + 1)),
                            None => None,
                        }
                    } else {
                        Some(Seq::empty())
                    },
                    _ => None,
                }
            } else {
                None
            },
            None => None,
        },
        _ => None,
    }
}

/// Decoding of the "fields" member of the object `j`.
pub open spec fn fields_model(j: JsonModel) -> Option<Seq<FieldModel>>
    decreases j, 1int, 0int,
{
    fields_from(j, 0)
}

/// Decoding of an object whose "type" member is the complex tag `t`.
pub open spec fn complex_model(j: JsonModel, t: Text) -> Option<SchemaModel>
    decreases j, 2int, 0int,
{
    match j {
        JsonModel::Object(e) => match attributes_of(e) {
            None => None,
            Some(attributes) => if t == "record"@ {
                match (req_text_member(e, "name"@), opt_text_member(e, "namespace"@), opt_text_member(e, "doc"@),
                    aliases_member(e), fields_model(j)) {
                    (Some(name), Some(namespace), Some(doc), Some(aliases), Some(fields)) =>
                        Some(SchemaModel::Record { name, namespace, doc, aliases, fields, attributes }),
                    _ => None,
                }
            } else if t == "enum"@ {
                match (req_text_member(e, "name"@), opt_text_member(e, "namespace"@), opt_text_member(e, "doc"@),
                    aliases_member(e), member(e, "symbols"@), opt_text_member(e, "default"@)) {
                    (Some(name), Some(namespace), Some(doc), Some(aliases), Some(sj), Some(default)) =>
                        match text_list(sj) {
                            Some(symbols) => Some(SchemaModel::Enum { name, namespace, doc, aliases, symbols, default, attributes }),
                            None => None,
                        },
                    _ => None,
                }
            } else if t == "array"@ {
                match nested_model(j, "items"@) {
                    Some(items) => Some(SchemaModel::Array { items: Box::new(items), attributes }),
                    None => None,
                }
            } else if t == "map"@ {
                match nested_model(j, "values"@) {
                    Some(values) => Some(SchemaModel::MapType { values: Box::new(values), attributes }),
                    None => None,
                }
            } else {
                match (req_text_member(e, "name"@), opt_text_member(e, "namespace"@), aliases_member(e), member(e, "size"@)) {
                    (Some(name), Some(namespace), Some(aliases), Some(sj)) => match size_of(sj) {
                        Some(size) => Some(SchemaModel::Fixed { name, namespace, aliases, size, attributes }),
                        None => None,
                    },
                    _ => None,
                }
            },
        },
        _ => None,
    }
}

// ---------------------------------------------------------------------------
// Executable decoding
// ---------------------------------------------------------------------------

broadcast use vstd::std_specs::vec::axiom_vec_index_decreases;

/// Why a JSON value is not a schema.
#[derive(Debug, PartialEq, Eq)]
pub enum DecodeError {
    /// Neither a string, an array, nor an object with a "type" member.
    UnrecognizedShape,
    /// The named member is missing, or holds a value of the wrong kind.
    InvalidMember(String),
}

/// The model of a decoded field.
pub open spec fn field_view(f: Field) -> FieldModel {
    FieldModel { name: f.name@, doc: opt_text(f.doc), field_type: f.field_type@, default: opt_text(f.default) }
}

fn invalid(k: &str) -> (r: DecodeError) {
    DecodeError::InvalidMember(k.to_owned())
}

/// The primitive type spelled by `s`, if any.
pub fn primitive_from(s: &str) -> (r: Option<PrimitiveType>)
    ensures
        r == primitive_of(s@),
{
    if text_eq(s, "null") {
        Some(PrimitiveType::Null)
    } else if text_eq(s, "boolean") {
        Some(PrimitiveType::Boolean)
    } else if text_eq(s, "int") {
        Some(PrimitiveType::Int)
    } else if text_eq(s, "long") {
        Some(PrimitiveType::Long)
    } else if text_eq(s, "float") {
        Some(PrimitiveType::Float)
    } else if text_eq(s, "double") {
        Some(PrimitiveType::Double)
    } else if text_eq(s, "bytes") {
        Some(PrimitiveType::Bytes)
    } else if text_eq(s, "string") {
        Some(PrimitiveType::String)
    } else {
        None
    }
}

/// Decodes a bare name: a primitive type, or a reference kept as written.
pub fn type_name_from(s: &String) -> (r: TypeName)
    ensures
        r@ == type_name_of(s@),
{
    match primitive_from(s.as_str()) {
        Some(p) => TypeName::Primitive(p),
        None => TypeName::Ref(s.clone()),
    }
}

/// Whether the key is consumed by the declarations themselves.
pub fn is_reserved_key(k: &str) -> (r: bool)
    ensures
        r == is_reserved(k@),
{
    text_eq(k, "name") || text_eq(k, "namespace") || text_eq(k, "doc") || text_eq(k, "aliases")
        || text_eq(k, "fields") || text_eq(k, "symbols") || text_eq(k, "default") || text_eq(k, "size")
        || text_eq(k, "items") || text_eq(k, "values") || text_eq(k, "type") || text_eq(k, "logicalType")
}

fn is_complex_tag_text(t: &str) -> (r: bool)
    ensures
        r == is_complex_tag(t@),
{
    text_eq(t, "record") || text_eq(t, "enum") || text_eq(t, "array") || text_eq(t, "map") || text_eq(t, "fixed")
}

/// Position of the first entry with key `k`.
fn find_key(e: &Vec<Member>, k: &str) -> (r: Option<usize>)
    ensures
        match r {
            Some(i) => key_index(entries_model(*e), k@) == Some(i as int) && i < e@.len(),
            None => key_index(entries_model(*e), k@) is None,
        },
{
    let ghost m = entries_model(*e);
    let mut i: usize = 0;
    while i < e.len()
        invariant
            i <= e@.len(),
            m == entries_model(*e),
            key_from(m, k@, 0) == key_from(m, k@, i as int),
        decreases e@.len() - i,
    {
        if text_eq(e[i].key.as_str(), k) {
            return Some(i);
        }
        i = i + 1;
    }
    None
}

fn opt_text_at(e: &Vec<Member>, k: &str) -> (r: Result<Option<String>, DecodeError>)
    ensures
        r is Ok <==> opt_text_member(entries_model(*e), k@) is Some,
        r matches Ok(o) ==> opt_text_member(entries_model(*e), k@) == Some(opt_text(o)),
{
    match find_key(e, k) {
        None => Ok(None),
        Some(i) => match &e[i].value {
            Json::Null => Ok(None),
            Json::Str(s) => Ok(Some(s.clone())),
            _ => Err(invalid(k)),
        },
    }
}

fn req_text_at(e: &Vec<Member>, k: &str) -> (r: Result<String, DecodeError>)
    ensures
        r is Ok <==> req_text_member(entries_model(*e), k@) is Some,
        r matches Ok(s) ==> req_text_member(entries_model(*e), k@) == Some(s@),
{
    match find_key(e, k) {
        None => Err(invalid(k)),
        Some(i) => match &e[i].value {
            Json::Str(s) => Ok(s.clone()),
            _ => Err(invalid(k)),
        },
    }
}

fn text_list_from(j: &Json, k: &str) -> (r: Result<Vec<String>, DecodeError>)
    ensures
        r is Ok <==> text_list(j@) is Some,
        r matches Ok(v) ==> text_list(j@) == Some(texts(v)),
{
    match j {
        Json::Array(items) => {
            let ghost m = j@->Array_0;
            let mut out: Vec<String> = Vec::new();
            let mut i: usize = 0;
            while i < items.len()
                invariant
                    m == j@->Array_0,
                    *j == Json::Array(*items),
                    m.len() == items@.len(),
                    i <= items@.len(),
                    out@.len() == i,
                    forall|q: int| 0 <= q < i ==> (#[trigger] m[q]) is Str && m[q]->Str_0 == out@[q]@,
                decreases items@.len() - i,
            {
                assert(m[i as int] == items@[i as int]@);
                match &items[i] {
                    Json::Str(s) => {
                        out.push(s.clone());
                    },
                    _ => {
                        assert(!(m[i as int] is Str));
                        return Err(invalid(k));
                    },
                }
                i = i + 1;
            }
            proof {
                assert(Seq::new(m.len(), |q: int| m[q]->Str_0) =~= texts(out));
            }
            Ok(out)
        },
        _ => Err(invalid(k)),
    }
}

fn aliases_at(e: &Vec<Member>) -> (r: Result<Vec<String>, DecodeError>)
    ensures
        r is Ok <==> aliases_member(entries_model(*e)) is Some,
        r matches Ok(v) ==> aliases_member(entries_model(*e)) == Some(texts(v)),
{
    match find_key(e, "aliases") {
        None => {
            let v: Vec<String> = Vec::new();
            proof {
                assert(texts(v) =~= Seq::<Text>::empty());
            }
            Ok(v)
        },
        Some(i) => match &e[i].value {
            Json::Null => {
                let v: Vec<String> = Vec::new();
                proof {
                    assert(texts(v) =~= Seq::<Text>::empty());
                }
                Ok(v)
            },
            other => text_list_from(other, "aliases"),
        },
    }
}

/// The entries whose keys are not reserved, in order.
fn open_entries(e: &Vec<Member>) -> (r: Vec<Member>)
    ensures
        entries_model(r) == open_from(entries_model(*e), 0),
{
    let ghost m = entries_model(*e);
    let mut out: Vec<Member> = Vec::new();
    let mut i: usize = 0;
    while i < e.len()
        invariant
            m == entries_model(*e),
            i <= e@.len(),
            entries_model(out) + open_from(m, i as int) == open_from(m, 0),
        decreases e@.len() - i,
    {
        if !is_reserved_key(e[i].key.as_str()) {
            let ghost before = entries_model(out);
            let key = e[i].key.clone();
            let value = e[i].value.deep_copy();
            out.push(Member { key, value });
            proof {
                assert(entries_model(out) =~= before.push(m[i as int]));
                assert(before.push(m[i as int]) + open_from(m, i + 1) =~= before + (seq![m[i as int]] + open_from(m, i + 1)));
            }
        }
        i = i + 1;
    }
    proof {
        assert(open_from(m, i as int) =~= Seq::empty());
        assert(entries_model(out) + Seq::<(Text, JsonModel)>::empty() =~= entries_model(out));
    }
    out
}

fn attributes_from(e: &Vec<Member>) -> (r: Result<Attributes, DecodeError>)
    ensures
        r is Ok <==> attributes_of(entries_model(*e)) is Some,
        r matches Ok(a) ==> attributes_of(entries_model(*e)) == Some(a@),
{
    match opt_text_at(e, "logicalType") {
        Ok(logical_type) => Ok(Attributes { logical_type, additional: open_entries(e) }),
        Err(x) => Err(x),
    }
}

proof fn lemma_prefix_value(t: Text, k: int)
    requires
        0 <= k <= t.len(),
    ensures
        digits_value(t.take(k)) <= digits_value(t),
    decreases t.len(),
{
    if k < t.len() {
        lemma_prefix_value(t.drop_last(), k);
        assert(t.drop_last().take(k) =~= t.take(k));
    } else {
        assert(t.take(k) =~= t);
    }
}

/// Reads a byte count written as decimal digits.
fn size_from(j: &Json) -> (r: Result<usize, DecodeError>)
    ensures
        r is Ok <==> size_of(j@) is Some,
        r matches Ok(n) ==> size_of(j@) == Some(n as nat),
{
    match j {
        Json::Number(t) => {
            let n = t.as_str().unicode_len();
            if n == 0 {
                return Err(invalid("size"));
            }
            let mut acc: usize = 0;
            let mut i: usize = 0;
            while i < n
                invariant
                    *j == Json::Number(*t),
                    n == t@.len(),
                    i <= n,
                    acc as nat == digits_value(t@.take(i as int)),
                    forall|q: int| 0 <= q < i ==> is_digit(#[trigger] t@[q]),
                decreases n - i,
            {
                let c = t.as_str().get_char(i);
                proof {
                    assert(t@.take(i + 1).drop_last() =~= t@.take(i as int));
                    assert(t@.take(i + 1).last() == c);
                }
                if c < '0' || c > '9' {
                    return Err(invalid("size"));
                }
                let d = (c as u32 - '0' as u32) as usize;
                if acc > (usize::MAX - d) / 10 {
                    proof {
                        lemma_prefix_value(t@, i + 1);
                        assert(acc * 10 + d > usize::MAX) by (nonlinear_arith)
                            requires acc > (usize::MAX - d) / 10, d <= 9;
                    }
                    return Err(invalid("size"));
                }
                acc = acc * 10 + d;
                i = i + 1;
            }
            proof {
                assert(t@.take(n as int) =~= t@);
            }
            Ok(acc)
        },
        _ => Err(invalid("size")),
    }
}

/// Decodes one JSON value into a schema.
///
/// A string is a type name, an array a union, an object whose "type" is a
/// complex tag that complex type, and any other object with a "type" member
/// an annotated type name.
pub fn decode(j: &Json) -> (r: Result<Schema, DecodeError>)
    ensures
        r is Ok <==> decode_model(j@) is Some,
        r matches Ok(s) ==> s@ == decode_model(j@)->Some_0,
        !(j@ is Str || j@ is Array || j@ is Object) ==> r == Err::<Schema, DecodeError>(DecodeError::UnrecognizedShape),
        j@ is Object && member(j@->Object_0, "type"@) is None ==> r == Err::<Schema, DecodeError>(DecodeError::UnrecognizedShape),
    decreases j, 3int, 0int,
{
    match j {
        Json::Str(s) => Ok(Schema::TypeName(type_name_from(s))),
        Json::Array(items) => {
            let ghost jm = j@;
            let ghost mut om: Seq<SchemaModel> = Seq::empty();
            let mut out: Vec<Schema> = Vec::new();
            let mut i: usize = 0;
            while i < items.len()
                invariant
                    jm == j@,
                    *j == Json::Array(*items),
                    jm->Array_0.len() == items@.len(),
                    i <= items@.len(),
                    out@.len() == i,
                    om.len() == i,
                    forall|q: int| 0 <= q < i ==> (#[trigger] out@[q])@ == om[q],
                    union_model(jm, 0) == prepend(om, union_model(jm, i as int)),
                decreases items@.len() - i,
            {
                assert(jm->Array_0[i as int] == items@[i as int]@);
                proof {
                    assert(decreases_to!(items => items[i as int]));
                }
                match decode(&items[i]) {
                    Ok(s) => {
                        proof {
                            let rest = union_model(jm, i + 1);
                            if rest is Some {
                                assert(om + (seq![s@] + rest->Some_0) =~= om.push(s@) + rest->Some_0);
                            }
                            om = om.push(s@);
                        }
                        out.push(s);
                    },
                    Err(x) => return Err(x),
                }
                i = i + 1;
            }
            let r = Schema::Union(out);
            proof {
                assert(om + Seq::<SchemaModel>::empty() =~= om);
                assert(r@->Union_0 =~= om);
            }
            Ok(r)
        },
        Json::Object(e) => {
            proof {
                lemma_object_view(*e);
            }
            match find_key(e, "type") {
                Some(i) => match &e[i].value {
                    Json::Str(t) => {
                        if is_complex_tag_text(t.as_str()) {
                            match complex_from(j, t.as_str()) {
                                Ok(c) => Ok(Schema::Complex(c)),
                                Err(x) => Err(x),
                            }
                        } else {
                            match attributes_from(e) {
                                Ok(attributes) => Ok(Schema::Type(Type { base: type_name_from(t), attributes })),
                                Err(x) => Err(x),
                            }
                        }
                    },
                    _ => Err(invalid("type")),
                },
                None => Err(DecodeError::UnrecognizedShape),
            }
        },
        _ => Err(DecodeError::UnrecognizedShape),
    }
}

/// Decodes the schema under key `k` of an object.
fn nested_at(j: &Json, k: &str) -> (r: Result<Schema, DecodeError>)
    requires
        j is Object,
    ensures
        r is Ok <==> nested_model(j@, k@) is Some,
        r matches Ok(s) ==> s@ == nested_model(j@, k@)->Some_0,
    decreases j, 0int, 0int,
{
    match j {
        Json::Object(e) => {
            proof {
                lemma_object_view(*e);
            }
            match find_key(e, k) {
                Some(i) => {
                    proof {
                        assert(decreases_to!(e => e[i as int]));
                    }
                    decode(&e[i].value)
                },
                None => Err(invalid(k)),
            }
        },
        _ => Err(invalid(k)),
    }
}

/// Decodes one record field.
fn field_from(j: &Json) -> (r: Result<Field, DecodeError>)
    ensures
        r is Ok <==> field_model(j@) is Some,
        r matches Ok(f) ==> field_view(f) == field_model(j@)->Some_0,
    decreases j, 1int, 0int,
{
    match j {
        Json::Object(e) => {
            proof {
                lemma_object_view(*e);
            }
            let name = match req_text_at(e, "name") {
                Ok(v) => v,
                Err(x) => return Err(x),
            };
            let doc = match opt_text_at(e, "doc") {
                Ok(v) => v,
                Err(x) => return Err(x),
            };
            let field_type = match nested_at(j, "type") {
                Ok(v) => v,
                Err(x) => return Err(x),
            };
            let default = match opt_text_at(e, "default") {
                Ok(v) => v,
                Err(x) => return Err(x),
            };
            Ok(Field { name, doc, field_type, default })
        },
        _ => Err(invalid("fields")),
    }
}

/// Decodes the "fields" member of a record.
fn fields_at(j: &Json) -> (r: Result<Vec<Field>, DecodeError>)
    requires
        j is Object,
    ensures
        r is Ok <==> fields_model(j@) is Some,
        r matches Ok(v) ==> fields_model(j@) == Some(Seq::new(v@.len(), |q: int| field_view(v@[q]))),
    decreases j, 1int, 0int,
{
    match j {
        Json::Object(e) => {
            proof {
                lemma_object_view(*e);
            }
            match find_key(e, "fields") {
                Some(k) => match &e[k].value {
                    Json::Array(fs) => {
                        let ghost jm = j@;
                        let ghost mut om: Seq<FieldModel> = Seq::empty();
                        let mut out: Vec<Field> = Vec::new();
                        let mut i: usize = 0;
                        while i < fs.len()
                            invariant
                                jm == j@,
                                *j == Json::Object(*e),
                                jm->Object_0 == entries_model(*e),
                                k < e@.len(),
                                key_index(jm->Object_0, "fields"@) == Some(k as int),
                                e@[k as int].value == Json::Array(*fs),
                                jm->Object_0[k as int].1->Array_0.len() == fs@.len(),
                                i <= fs@.len(),
                                out@.len() == i,
                                om.len() == i,
                                forall|q: int| 0 <= q < i ==> field_view(#[trigger] out@[q]) == om[q],
                                fields_from(jm, 0) == prepend(om, fields_from(jm, i as int)),
                            decreases fs@.len() - i,
                        {
                            assert(jm->Object_0[k as int].1->Array_0[i as int] == fs@[i as int]@);
                            proof {
                                assert(decreases_to!(e => e[k as int]));
                                assert(decreases_to!(fs => fs[i as int]));
                            }
                            match field_from(&fs[i]) {
                                Ok(f) => {
                                    proof {
                                        let rest = fields_from(jm, i + 1);
                                        if rest is Some {
                                            assert(om + (seq![field_view(f)] + rest->Some_0) =~= om.push(field_view(f)) + rest->Some_0);
                                        }
                                        om = om.push(field_view(f));
                                    }
                                    out.push(f);
                                },
                                Err(x) => return Err(x),
                            }
                            i = i + 1;
                        }
                        proof {
                            assert(om + Seq::<FieldModel>::empty() =~= om);
                            assert(Seq::new(out@.len(), |q: int| field_view(out@[q])) =~= om);
                        }
                        Ok(out)
                    },
                    _ => Err(invalid("fields")),
                },
                None => Err(invalid("fields")),
            }
        },
        _ => Err(invalid("fields")),
    }
}

/// Decodes an object whose "type" member is the complex tag `t`.
fn complex_from(j: &Json, t: &str) -> (r: Result<ComplexType, DecodeError>)
    requires
        j is Object,
        is_complex_tag(t@),
    ensures
        r is Ok <==> complex_model(j@, t@) is Some,
        r matches Ok(c) ==> Schema::Complex(c)@ == complex_model(j@, t@)->Some_0,
    decreases j, 2int, 0int,
{
    match j {
        Json::Object(e) => {
            proof {
                lemma_object_view(*e);
            }
            let attributes = match attributes_from(e) {
                Ok(a) => a,
                Err(x) => return Err(x),
            };
            if text_eq(t, "record") {
                let name = match req_text_at(e, "name") {
                    Ok(v) => v,
                    Err(x) => return Err(x),
                };
                let namespace = match opt_text_at(e, "namespace") {
                    Ok(v) => v,
                    Err(x) => return Err(x),
                };
                let doc = match opt_text_at(e, "doc") {
                    Ok(v) => v,
                    Err(x) => return Err(x),
                };
                let aliases = match aliases_at(e) {
                    Ok(v) => v,
                    Err(x) => return Err(x),
                };
                let fields = match fields_at(j) {
                    Ok(v) => v,
                    Err(x) => return Err(x),
                };
                let r = ComplexType::Record(Record { name, namespace, doc, aliases, fields, attributes });
                proof {
                    assert(Schema::Complex(r)@->fields =~= fields_model(j@)->Some_0);
                }
                Ok(r)
            } else if text_eq(t, "enum") {
                let name = match req_text_at(e, "name") {
                    Ok(v) => v,
                    Err(x) => return Err(x),
                };
                let namespace = match opt_text_at(e, "namespace") {
                    Ok(v) => v,
                    Err(x) => return Err(x),
                };
                let doc = match opt_text_at(e, "doc") {
                    Ok(v) => v,
                    Err(x) => return Err(x),
                };
                let aliases = match aliases_at(e) {
                    Ok(v) => v,
                    Err(x) => return Err(x),
                };
                let symbols = match find_key(e, "symbols") {
                    Some(i) => match text_list_from(&e[i].value, "symbols") {
                        Ok(v) => v,
                        Err(x) => return Err(x),
                    },
                    None => return Err(invalid("symbols")),
                };
                let default = match opt_text_at(e, "default") {
                    Ok(v) => v,
                    Err(x) => return Err(x),
                };
                Ok(ComplexType::Enum(Enum { name, namespace, doc, aliases, symbols, default, attributes }))
            } else if text_eq(t, "array") {
                match nested_at(j, "items") {
                    Ok(items) => Ok(ComplexType::Array(Array { items: Box::new(items), attributes })),
                    Err(x) => Err(x),
                }
            } else if text_eq(t, "map") {
                match nested_at(j, "values") {
                    Ok(values) => Ok(ComplexType::MapType(MapType { values: Box::new(values), attributes })),
                    Err(x) => Err(x),
                }
            } else {
                let name = match req_text_at(e, "name") {
                    Ok(v) => v,
                    Err(x) => return Err(x),
                };
                let namespace = match opt_text_at(e, "namespace") {
                    Ok(v) => v,
                    Err(x) => return Err(x),
                };
                let aliases = match aliases_at(e) {
                    Ok(v) => v,
                    Err(x) => return Err(x),
                };
                let size = match find_key(e, "size") {
                    Some(i) => match size_from(&e[i].value) {
                        Ok(v) => v,
                        Err(x) => return Err(x),
                    },
                    None => return Err(invalid("size")),
                };
                Ok(ComplexType::Fixed(Fixed { name, namespace, aliases, size, attributes }))
            }
        },
        _ => Err(invalid("type")),
    }
}

} // verus!
