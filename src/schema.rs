use vstd::prelude::*;

use crate::json::{entries_model, json_eq, JsonModel, Member};
use crate::text::text_eq;

verus! {

/// The metadata key under which an encoded schema is stored.
pub const SCHEMA_METADATA_KEY: &'static str = "avro.schema";

/// A primitive type.
#[derive(Debug, Clone, Copy, PartialEq, Eq, Structural)]
pub enum PrimitiveType {
    /// null: no value
    Null,
    /// boolean: a binary value
    Boolean,
    /// int: 32-bit signed integer
    Int,
    /// long: 64-bit signed integer
    Long,
    /// float: single precision floating-point number
    Float,
    /// double: double precision floating-point number
    Double,
    /// bytes: sequence of 8-bit unsigned bytes
    Bytes,
    /// string: Unicode character sequence
    String,
}

/// Either a [`PrimitiveType`] or a reference to a named type declared elsewhere.
#[derive(Debug, PartialEq)]
pub enum TypeName {
    Primitive(PrimitiveType),
    Ref(String),
}

/// A logical type tag plus the open set of extra attributes of a declaration.
///
/// Two values are equal when their logical types are equal and their extra
/// attributes hold the same key/value pairs, in whatever order.
#[derive(Debug)]
pub struct Attributes {
    pub logical_type: Option<String>,
    pub additional: Vec<Member>,
}

/// A bare type name that carries attributes.
#[derive(Debug, PartialEq)]
pub struct Type {
    pub base: TypeName,
    pub attributes: Attributes,
}

/// A schema: a type name, a union, a complex type or an annotated type.
#[derive(Debug, PartialEq)]
pub enum Schema {
    TypeName(TypeName),
    Union(Vec<Schema>),
    Complex(ComplexType),
    Type(Type),
}

/// A complex type, told apart by its "type" tag.
#[derive(Debug, PartialEq)]
pub enum ComplexType {
    Record(Record),
    Enum(Enum),
    Array(Array),
    MapType(MapType),
    Fixed(Fixed),
}

/// A record: a named, ordered list of fields.
#[derive(Debug, PartialEq)]
pub struct Record {
    pub name: String,
    pub namespace: Option<String>,
    pub doc: Option<String>,
    pub aliases: Vec<String>,
    pub fields: Vec<Field>,
    pub attributes: Attributes,
}

/// A field of a [`Record`]; its default is kept as raw text.
#[derive(Debug, PartialEq)]
pub struct Field {
    pub name: String,
    pub doc: Option<String>,
    pub field_type: Schema,
    pub default: Option<String>,
}

/// An enumeration of symbols.
#[derive(Debug, PartialEq)]
pub struct Enum {
    pub name: String,
    pub namespace: Option<String>,
    pub doc: Option<String>,
    pub aliases: Vec<String>,
    pub symbols: Vec<String>,
    pub default: Option<String>,
    pub attributes: Attributes,
}

/// An array whose items share one schema.
#[derive(Debug, PartialEq)]
pub struct Array {
    pub items: Box<Schema>,
    pub attributes: Attributes,
}

/// A map from strings to values that share one schema.
#[derive(Debug, PartialEq)]
pub struct MapType {
    pub values: Box<Schema>,
    pub attributes: Attributes,
}

/// A fixed number of bytes.
#[derive(Debug, PartialEq)]
pub struct Fixed {
    pub name: String,
    pub namespace: Option<String>,
    pub aliases: Vec<String>,
    pub size: usize,
    pub attributes: Attributes,
}

// ---------------------------------------------------------------------------
// Mathematical models
// ---------------------------------------------------------------------------

pub type Text = Seq<char>;

pub type Entries = Seq<(Text, JsonModel)>;

pub enum TypeNameModel {
    Primitive(PrimitiveType),
    Ref(Text),
}

pub struct AttributesModel {
    pub logical_type: Option<Text>,
    pub additional: Entries,
}

pub struct FieldModel {
    pub name: Text,
    pub doc: Option<Text>,
    pub field_type: SchemaModel,
    pub default: Option<Text>,
}

pub enum SchemaModel {
    TypeName(TypeNameModel),
    Union(Seq<SchemaModel>),
    Record {
        name: Text,
        namespace: Option<Text>,
        doc: Option<Text>,
        aliases: Seq<Text>,
        fields: Seq<FieldModel>,
        attributes: AttributesModel,
    },
    Enum {
        name: Text,
        namespace: Option<Text>,
        doc: Option<Text>,
        aliases: Seq<Text>,
        symbols: Seq<Text>,
        default: Option<Text>,
        attributes: AttributesModel,
    },
    Array { items: Box<SchemaModel>, attributes: AttributesModel },
    MapType { values: Box<SchemaModel>, attributes: AttributesModel },
    Fixed {
        name: Text,
        namespace: Option<Text>,
        aliases: Seq<Text>,
        size: nat,
        attributes: AttributesModel,
    },
    Type { base: TypeNameModel, attributes: AttributesModel },
}

pub open spec fn opt_text(o: Option<String>) -> Option<Text> {
    match o {
        Some(s) => Some(s@),
        None => None,
    }
}

pub open spec fn texts(v: Vec<String>) -> Seq<Text> {
    Seq::new(v@.len(), |i: int| v@[i]@)
}


impl View for TypeName {
    type V = TypeNameModel;

    open spec fn view(&self) -> TypeNameModel {
        match self {
            TypeName::Primitive(p) => TypeNameModel::Primitive(*p),
            TypeName::Ref(s) => TypeNameModel::Ref(s@),
        }
    }
}

impl View for Attributes {
    type V = AttributesModel;

    open spec fn view(&self) -> AttributesModel {
        AttributesModel {
            logical_type: opt_text(self.logical_type),
            additional: entries_model(self.additional),
        }
    }
}

pub open spec fn schema_model(s: Schema) -> SchemaModel
    decreases s,
{
    match s {
        Schema::TypeName(t) => SchemaModel::TypeName(t@),
        Schema::Union(v) => SchemaModel::Union(
            Seq::new(v@.len(), |i: int| if 0 <= i < v@.len() { schema_model(v@[i]) } else { SchemaModel::Union(Seq::empty()) }),
        ),
        Schema::Complex(ComplexType::Record(r)) => SchemaModel::Record {
            name: r.name@,
            namespace: opt_text(r.namespace),
            doc: opt_text(r.doc),
            aliases: texts(r.aliases),
            fields: Seq::new(r.fields@.len(), |i: int| FieldModel {
                name: r.fields@[i].name@,
                doc: opt_text(r.fields@[i].doc),
                field_type: if 0 <= i < r.fields@.len() { schema_model(r.fields@[i].field_type) } else { SchemaModel::Union(Seq::empty()) },
                default: opt_text(r.fields@[i].default),
            }),
            attributes: r.attributes@,
        },
        Schema::Complex(ComplexType::Enum(e)) => SchemaModel::Enum {
            name: e.name@,
            namespace: opt_text(e.namespace),
            doc: opt_text(e.doc),
            aliases: texts(e.aliases),
            symbols: texts(e.symbols),
            default: opt_text(e.default),
            attributes: e.attributes@,
        },
        Schema::Complex(ComplexType::Array(a)) => SchemaModel::Array {
            items: Box::new(schema_model(*a.items)),
            attributes: a.attributes@,
        },
        Schema::Complex(ComplexType::MapType(m)) => SchemaModel::MapType {
            values: Box::new(schema_model(*m.values)),
            attributes: m.attributes@,
        },
        Schema::Complex(ComplexType::Fixed(f)) => SchemaModel::Fixed {
            name: f.name@,
            namespace: opt_text(f.namespace),
            aliases: texts(f.aliases),
            size: f.size as nat,
            attributes: f.attributes@,
        },
        Schema::Type(t) => SchemaModel::Type { base: t.base@, attributes: t.attributes@ },
    }
}

impl View for Schema {
    type V = SchemaModel;

    open spec fn view(&self) -> SchemaModel {
        schema_model(*self)
    }
}

/// Every pair of `a` is a pair of `b`.
pub open spec fn pairs_within(a: Entries, b: Entries) -> bool {
    forall|i: int| 0 <= i < a.len() ==> b.contains(#[trigger] a[i])
}

fn opt_text_eq(a: &Option<String>, b: &Option<String>) -> (r: bool)
    ensures
        r == (opt_text(*a) == opt_text(*b)),
{
    match (a, b) {
        (Some(x), Some(y)) => text_eq(x.as_str(), y.as_str()),
        (None, None) => true,
        _ => false,
    }
}

fn all_pairs_within(a: &Vec<Member>, b: &Vec<Member>) -> (r: bool)
    ensures
        r == pairs_within(entries_model(*a), entries_model(*b)),
{
    let ghost ma = entries_model(*a);
    let ghost mb = entries_model(*b);
    let mut i: usize = 0;
    while i < a.len()
        invariant
            ma == entries_model(*a),
            mb == entries_model(*b),
            i <= a@.len(),
            forall|q: int| 0 <= q < i ==> mb.contains(#[trigger] ma[q]),
        decreases a@.len() - i,
    {
        let mut k: usize = 0;
        let mut found = false;
        while k < b.len() && !found
            invariant
                ma == entries_model(*a),
                mb == entries_model(*b),
                i < a@.len(),
                k <= b@.len(),
                found ==> mb.contains(ma[i as int]),
                !found ==> forall|t: int| 0 <= t < k ==> mb[t] != ma[i as int],
            decreases b@.len() - k,
        {
            if text_eq(a[i].key.as_str(), b[k].key.as_str()) && json_eq(&a[i].value, &b[k].value) {
                assert(mb[k as int] == ma[i as int]);
                found = true;
            }
            k = k + 1;
        }
        if !found {
            assert(!mb.contains(ma[i as int]));
            return false;
        }
        i = i + 1;
    }
    true
}

impl PartialEq for Attributes {
    fn eq(&self, other: &Attributes) -> (r: bool) {
        opt_text_eq(&self.logical_type, &other.logical_type) && all_pairs_within(&self.additional, &other.additional)
            && all_pairs_within(&other.additional, &self.additional)
    }
}

impl vstd::std_specs::cmp::PartialEqSpecImpl for Attributes {
    open spec fn obeys_eq_spec() -> bool {
        true
    }

    open spec fn eq_spec(&self, other: &Attributes) -> bool {
        self@.logical_type == other@.logical_type && pairs_within(self@.additional, other@.additional)
            && pairs_within(other@.additional, self@.additional)
    }
}

} // verus!
