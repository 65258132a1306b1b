use vstd::prelude::*;

use crate::decode::{
    aliases_member, attributes_of, complex_model, decode_model, digits_value, field_list,
    field_model, fields_from, fields_model, is_complex_tag, is_digit, is_reserved, key_from,
    key_index, member, nested_model, open_from, opt_text_member, primitive_of, req_text_member,
    text_list, type_name_of, union_model,
};
use crate::encode::{
    attribute_entries, decimal_text, digit_text, encode_model, field_json, name_text, opt_entry,
    primitive_word, text_array, text_entry,
};
use crate::json::JsonModel;
use crate::schema::{AttributesModel, Entries, FieldModel, PrimitiveType, SchemaModel, Text, TypeNameModel};

verus! {

// ---------------------------------------------------------------------------
// Looking keys up in concatenated entries
// ---------------------------------------------------------------------------

proof fn lemma_key_shift(p: Entries, q: Entries, k: Text, i: int)
    requires
        0 <= i <= q.len(),
    ensures
        key_from(p + q, k, p.len() + i) == match key_from(q, k, i) {
            Some(x) => Some(x + p.len()),
            None => None,
        },
    decreases q.len() - i,
{
    if i < q.len() {
        lemma_key_shift(p, q, k, i + 1);
    }
}

proof fn lemma_key_concat(p: Entries, q: Entries, k: Text, i: int)
    requires
        0 <= i <= p.len(),
    ensures
        key_from(p + q, k, i) == match key_from(p, k, i) {
            Some(x) => Some(x),
            None => match key_from(q, k, 0) {
                Some(y) => Some(y + p.len()),
                None => None,
            },
        },
    decreases p.len() - i,
{
    if i < p.len() {
        lemma_key_concat(p, q, k, i + 1);
    } else {
        lemma_key_shift(p, q, k, 0);
    }
}

proof fn lemma_key_in_range(e: Entries, k: Text, i: int)
    requires
        0 <= i,
    ensures
        key_from(e, k, i) matches Some(x) ==> i <= x < e.len() && e[x].0 == k,
    decreases e.len() - i,
{
    if i < e.len() {
        lemma_key_in_range(e, k, i + 1);
    }
}

/// The first entry with a key is found in the first part, else in the second.
pub broadcast proof fn lemma_member_concat(p: Entries, q: Entries, k: Text)
    ensures
        #[trigger] member(p + q, k) == if member(p, k) is Some { member(p, k) } else { member(q, k) },
{
    lemma_key_concat(p, q, k, 0);
    lemma_key_in_range(p, k, 0);
    lemma_key_in_range(q, k, 0);
}

pub broadcast proof fn lemma_member_text(a: Text, v: Text, k: Text)
    ensures
        #[trigger] member(text_entry(a, v), k) == if a == k { Some(JsonModel::Str(v)) } else { None },
{
    let e = text_entry(a, v);
    assert(key_from(e, k, 1) is None);
}

pub broadcast proof fn lemma_member_single(a: Text, v: JsonModel, k: Text)
    ensures
        #[trigger] member(seq![(a, v)], k) == if a == k { Some(v) } else { None },
{
    let e = seq![(a, v)];
    assert(key_from(e, k, 1) is None);
}

pub broadcast proof fn lemma_member_opt(a: Text, o: Option<Text>, k: Text)
    ensures
        #[trigger] member(opt_entry(a, o), k) == match o {
            Some(v) => if a == k { Some(JsonModel::Str(v)) } else { None },
            None => None,
        },
{
    broadcast use lemma_member_text;
    if o is None {
        assert(key_from(opt_entry(a, o), k, 0) is None);
    }
}

/// Whether no key of `e` is reserved.
pub open spec fn open_keys(e: Entries) -> bool {
    forall|i: int| 0 <= i < e.len() ==> !is_reserved(#[trigger] e[i].0)
}

proof fn lemma_member_open_from(e: Entries, k: Text, i: int)
    requires
        open_keys(e),
        is_reserved(k),
        0 <= i,
    ensures
        key_from(e, k, i) is None,
    decreases e.len() - i,
{
    if i < e.len() {
        lemma_member_open_from(e, k, i + 1);
    }
}

pub broadcast proof fn lemma_member_open(e: Entries, k: Text)
    requires
        open_keys(e),
        is_reserved(k),
    ensures
        #[trigger] member(e, k) is None,
{
    lemma_member_open_from(e, k, 0);
}

// ---------------------------------------------------------------------------
// The open attributes of concatenated entries
// ---------------------------------------------------------------------------

proof fn lemma_open_shift(p: Entries, q: Entries, i: int)
    requires
        0 <= i <= q.len(),
    ensures
        open_from(p + q, p.len() + i) == open_from(q, i),
    decreases q.len() - i,
{
    if i < q.len() {
        lemma_open_shift(p, q, i + 1);
    }
}

proof fn lemma_open_concat_from(p: Entries, q: Entries, i: int)
    requires
        0 <= i <= p.len(),
    ensures
        open_from(p + q, i) == open_from(p, i) + open_from(q, 0),
    decreases p.len() - i,
{
    if i < p.len() {
        lemma_open_concat_from(p, q, i + 1);
        if !is_reserved(p[i].0) {
            assert(seq![p[i]] + (open_from(p, i + 1) + open_from(q, 0)) =~= seq![p[i]] + open_from(p, i + 1)
                + open_from(q, 0));
        }
    } else {
        lemma_open_shift(p, q, 0);
        assert(open_from(p, i) + open_from(q, 0) =~= open_from(q, 0));
    }
}

pub broadcast proof fn lemma_open_concat(p: Entries, q: Entries)
    ensures
        #[trigger] open_from(p + q, 0) == open_from(p, 0) + open_from(q, 0),
{
    lemma_open_concat_from(p, q, 0);
}

proof fn lemma_open_all_from(e: Entries, i: int)
    requires
        open_keys(e),
        0 <= i <= e.len(),
    ensures
        open_from(e, i) == e.skip(i),
    decreases e.len() - i,
{
    if i < e.len() {
        lemma_open_all_from(e, i + 1);
        assert(seq![e[i]] + e.skip(i + 1) =~= e.skip(i));
    } else {
        assert(e.skip(i) =~= Seq::<(Text, JsonModel)>::empty());
    }
}

pub broadcast proof fn lemma_open_all(e: Entries)
    requires
        open_keys(e),
    ensures
        #[trigger] open_from(e, 0) == e,
{
    lemma_open_all_from(e, 0);
    assert(e.skip(0) =~= e);
}

pub broadcast proof fn lemma_open_text(a: Text, v: Text)
    requires
        is_reserved(a),
    ensures
        #[trigger] open_from(text_entry(a, v), 0) == Seq::<(Text, JsonModel)>::empty(),
{
    assert(open_from(text_entry(a, v), 1) == Seq::<(Text, JsonModel)>::empty());
}

pub broadcast proof fn lemma_open_single(a: Text, v: JsonModel)
    requires
        is_reserved(a),
    ensures
        #[trigger] open_from(seq![(a, v)], 0) == Seq::<(Text, JsonModel)>::empty(),
{
    assert(open_from(seq![(a, v)], 1) == Seq::<(Text, JsonModel)>::empty());
}

pub broadcast proof fn lemma_open_opt(a: Text, o: Option<Text>)
    requires
        is_reserved(a),
    ensures
        #[trigger] open_from(opt_entry(a, o), 0) == Seq::<(Text, JsonModel)>::empty(),
{
    if o is Some {
        lemma_open_text(a, o->Some_0);
    }
}

proof fn lemma_open_keys_from(e: Entries, i: int)
    requires
        0 <= i,
    ensures
        open_keys(open_from(e, i)),
    decreases e.len() - i,
{
    if i < e.len() {
        lemma_open_keys_from(e, i + 1);
        let r = open_from(e, i + 1);
        if !is_reserved(e[i].0) {
            assert forall|x: int| 0 <= x < (seq![e[i]] + r).len() implies !is_reserved(#[trigger] (seq![e[i]] + r)[x].0) by {
                if x > 0 {
                    assert((seq![e[i]] + r)[x] == r[x - 1]);
                }
            }
        }
    }
}

/// The open attributes that decoding collects hold no reserved key.
pub proof fn lemma_attributes_open(e: Entries)
    requires
        attributes_of(e) is Some,
    ensures
        open_keys(attributes_of(e)->Some_0.additional),
{
    lemma_open_keys_from(e, 0);
}

// ---------------------------------------------------------------------------
// Words, numbers and lists
// ---------------------------------------------------------------------------

proof fn lemma_words()
    ensures
        is_reserved("type"@) && is_reserved("name"@) && is_reserved("namespace"@) && is_reserved("doc"@)
            && is_reserved("aliases"@) && is_reserved("fields"@) && is_reserved("symbols"@)
            && is_reserved("default"@) && is_reserved("size"@) && is_reserved("items"@)
            && is_reserved("values"@) && is_reserved("logicalType"@),
        forall|p: PrimitiveType| primitive_of(#[trigger] primitive_word(p)) == Some(p),
        forall|p: PrimitiveType| !is_complex_tag(#[trigger] primitive_word(p)),
        is_complex_tag("record"@) && is_complex_tag("enum"@) && is_complex_tag("array"@)
            && is_complex_tag("map"@) && is_complex_tag("fixed"@),
        "record"@ != "enum"@ && "record"@ != "array"@ && "record"@ != "map"@ && "record"@ != "fixed"@
            && "enum"@ != "array"@ && "enum"@ != "map"@ && "enum"@ != "fixed"@ && "array"@ != "map"@
            && "array"@ != "fixed"@ && "map"@ != "fixed"@,
        "type"@ != "name"@ && "type"@ != "namespace"@ && "type"@ != "doc"@ && "type"@ != "aliases"@
            && "type"@ != "fields"@ && "type"@ != "symbols"@ && "type"@ != "default"@ && "type"@ != "size"@
            && "type"@ != "items"@ && "type"@ != "values"@ && "type"@ != "logicalType"@,
        "name"@ != "namespace"@ && "name"@ != "doc"@ && "name"@ != "aliases"@ && "name"@ != "fields"@
            && "name"@ != "symbols"@ && "name"@ != "default"@ && "name"@ != "size"@ && "name"@ != "logicalType"@,
        "namespace"@ != "doc"@ && "namespace"@ != "aliases"@ && "namespace"@ != "fields"@
            && "namespace"@ != "symbols"@ && "namespace"@ != "default"@ && "namespace"@ != "size"@
            && "namespace"@ != "logicalType"@,
        "doc"@ != "aliases"@ && "doc"@ != "fields"@ && "doc"@ != "symbols"@ && "doc"@ != "default"@
            && "doc"@ != "logicalType"@,
        "aliases"@ != "fields"@ && "aliases"@ != "symbols"@ && "aliases"@ != "default"@ && "aliases"@ != "size"@
            && "aliases"@ != "logicalType"@,
        "fields"@ != "logicalType"@ && "symbols"@ != "default"@ && "symbols"@ != "logicalType"@
            && "default"@ != "logicalType"@ && "size"@ != "logicalType"@ && "items"@ != "logicalType"@
            && "values"@ != "logicalType"@,
{
    reveal_strlit("type");
    reveal_strlit("name");
    reveal_strlit("namespace");
    reveal_strlit("doc");
    reveal_strlit("aliases");
    reveal_strlit("fields");
    reveal_strlit("symbols");
    reveal_strlit("default");
    reveal_strlit("size");
    reveal_strlit("items");
    reveal_strlit("values");
    reveal_strlit("logicalType");
    reveal_strlit("record");
    reveal_strlit("enum");
    reveal_strlit("array");
    reveal_strlit("map");
    reveal_strlit("fixed");
    reveal_strlit("null");
    reveal_strlit("boolean");
    reveal_strlit("int");
    reveal_strlit("long");
    reveal_strlit("float");
    reveal_strlit("double");
    reveal_strlit("bytes");
    reveal_strlit("string");
    assert("type"@[0] == 't');
    assert("name"@[0] == 'n');
    assert("namespace"@[0] == 'n');
    assert("doc"@[0] == 'd');
    assert("aliases"@[0] == 'a');
    assert("fields"@[0] == 'f');
    assert("symbols"@[0] == 's');
    assert("default"@[0] == 'd');
    assert("size"@[0] == 's');
    assert("items"@[0] == 'i');
    assert("values"@[0] == 'v');
    assert("logicalType"@[0] == 'l');
    assert("record"@[0] == 'r');
    assert("enum"@[0] == 'e');
    assert("array"@[0] == 'a');
    assert("map"@[0] == 'm');
    assert("fixed"@[0] == 'f');
    assert("null"@[0] == 'n');
    assert("boolean"@[0] == 'b');
    assert("int"@[0] == 'i');
    assert("long"@[0] == 'l');
    assert("float"@[0] == 'f');
    assert("double"@[0] == 'd');
    assert("bytes"@[0] == 'b');
    assert("string"@[0] == 's');
    assert("type"@.len() == 4);
    assert("name"@.len() == 4);
    assert("namespace"@.len() == 9);
    assert("doc"@.len() == 3);
    assert("aliases"@.len() == 7);
    assert("fields"@.len() == 6);
    assert("symbols"@.len() == 7);
    assert("default"@.len() == 7);
    assert("size"@.len() == 4);
    assert("items"@.len() == 5);
    assert("values"@.len() == 6);
    assert("logicalType"@.len() == 11);
    assert("record"@.len() == 6);
    assert("enum"@.len() == 4);
    assert("array"@.len() == 5);
    assert("map"@.len() == 3);
    assert("fixed"@.len() == 5);
    assert("null"@.len() == 4);
    assert("boolean"@.len() == 7);
    assert("int"@.len() == 3);
    assert("long"@.len() == 4);
    assert("float"@.len() == 5);
    assert("double"@.len() == 6);
    assert("bytes"@.len() == 5);
    assert("string"@.len() == 6);
    assert("fixed"@[1] == 'i');
    assert("float"@[1] == 'l');
    assert("name"@[1] == 'a');
    assert("null"@[1] == 'u');
    assert("namespace"@[1] == 'a');
    assert("doc"@[1] == 'o');
    assert("default"@[1] == 'e');
    assert("double"@[1] == 'o');
    assert("size"@[1] == 'i');
    assert("symbols"@[1] == 'y');
    assert("string"@[1] == 't');
    assert forall|p: PrimitiveType| primitive_of(#[trigger] primitive_word(p)) == Some(p) && !is_complex_tag(primitive_word(p)) by {
        match p {
            PrimitiveType::Null => {
                assert(primitive_word(p) == "null"@);
            },
            PrimitiveType::Boolean => {
                assert("boolean"@ != "null"@);
            },
            PrimitiveType::Int => {
                assert("int"@ != "null"@ && "int"@ != "boolean"@);
            },
            PrimitiveType::Long => {
                assert("long"@ != "null"@ && "long"@ != "boolean"@ && "long"@ != "int"@);
                assert(!is_complex_tag("long"@));
            },
            PrimitiveType::Float => {
                assert("float"@ != "null"@ && "float"@ != "boolean"@ && "float"@ != "int"@ && "float"@ != "long"@);
                assert(!is_complex_tag("float"@));
            },
            PrimitiveType::Double => {
                assert("double"@ != "null"@ && "double"@ != "boolean"@ && "double"@ != "int"@ && "double"@ != "long"@
                    && "double"@ != "float"@);
                assert(!is_complex_tag("double"@));
            },
            PrimitiveType::Bytes => {
                assert("bytes"@ != "null"@ && "bytes"@ != "boolean"@ && "bytes"@ != "int"@ && "bytes"@ != "long"@
                    && "bytes"@ != "float"@ && "bytes"@ != "double"@);
                assert(!is_complex_tag("bytes"@));
            },
            PrimitiveType::String => {
                assert("string"@ != "null"@ && "string"@ != "boolean"@ && "string"@ != "int"@ && "string"@ != "long"@
                    && "string"@ != "float"@ && "string"@ != "double"@ && "string"@ != "bytes"@);
                assert(!is_complex_tag("string"@));
            },
        }
    }
}

/// A name decodes to a type name whose text decodes to it again.
proof fn lemma_name(s: Text)
    ensures
        type_name_of(name_text(type_name_of(s))) == type_name_of(s),
        !is_complex_tag(s) ==> !is_complex_tag(name_text(type_name_of(s))),
{
    lemma_words();
}

proof fn lemma_decimal(n: nat)
    ensures
        decimal_text(n).len() > 0,
        forall|i: int| 0 <= i < decimal_text(n).len() ==> is_digit(#[trigger] decimal_text(n)[i]),
        digits_value(decimal_text(n)) == n,
    decreases n,
{
    reveal_strlit("0");
    reveal_strlit("1");
    reveal_strlit("2");
    reveal_strlit("3");
    reveal_strlit("4");
    reveal_strlit("5");
    reveal_strlit("6");
    reveal_strlit("7");
    reveal_strlit("8");
    reveal_strlit("9");
    let d = digit_text(n % 10);
    let m = n % 10;
    assert(d.len() == 1 && is_digit(d[0]) && digits_value(seq![d[0]]) == m) by {
        assert(seq![d[0]].drop_last() =~= Seq::<char>::empty());
        assert(seq![d[0]].last() == d[0]);
        reveal_with_fuel(digits_value, 2);
        assert(digits_value(seq![d[0]]) == (d[0] as u32 - '0' as u32) as nat);
        if m == 0 {
            assert(d[0] == '0');
        } else if m == 1 {
            assert(d[0] == '1');
        } else if m == 2 {
            assert(d[0] == '2');
        } else if m == 3 {
            assert(d[0] == '3');
        } else if m == 4 {
            assert(d[0] == '4');
        } else if m == 5 {
            assert(d[0] == '5');
        } else if m == 6 {
            assert(d[0] == '6');
        } else if m == 7 {
            assert(d[0] == '7');
        } else if m == 8 {
            assert(d[0] == '8');
        } else {
            assert(d[0] == '9');
        }
    }
    assert(d =~= seq![d[0]]);
    if n >= 10 {
        lemma_decimal(n / 10);
        let t = decimal_text(n / 10);
        assert((t + d).drop_last() =~= t);
        assert((t + d).last() == d[0]);
        assert(digits_value(t + d) == (n / 10) * 10 + n % 10);
        assert forall|i: int| 0 <= i < (t + d).len() implies is_digit(#[trigger] (t + d)[i]) by {
            if i < t.len() {
                assert((t + d)[i] == t[i]);
            }
        }
    } else {
        assert(n % 10 == n);
    }
}

proof fn lemma_text_list(v: Seq<Text>)
    ensures
        text_list(text_array(v)) == Some(v),
{
    let a = text_array(v)->Array_0;
    assert(Seq::new(a.len(), |i: int| a[i]->Str_0) =~= v);
}

// ---------------------------------------------------------------------------
// Decoding of unions and field lists, element by element
// ---------------------------------------------------------------------------

proof fn lemma_union_parts(j: JsonModel, i: int)
    requires
        j is Array,
        0 <= i <= j->Array_0.len(),
        union_model(j, i) is Some,
    ensures
        union_model(j, i)->Some_0.len() == j->Array_0.len() - i,
        forall|k: int| 0 <= k < j->Array_0.len() - i ==> decode_model(#[trigger] j->Array_0[i + k]) == Some(union_model(j, i)->Some_0[k]),
    decreases j->Array_0.len() - i,
{
    if i < j->Array_0.len() {
        lemma_union_parts(j, i + 1);
        let rest = union_model(j, i + 1)->Some_0;
        let r = union_model(j, i)->Some_0;
        assert forall|k: int| 0 <= k < j->Array_0.len() - i implies decode_model(#[trigger] j->Array_0[i + k]) == Some(r[k]) by {
            if k > 0 {
                assert(j->Array_0[i + k] == j->Array_0[(i + 1) + (k - 1)]);
            }
        }
    }
}

proof fn lemma_fields_parts(j: JsonModel, i: int)
    requires
        field_list(j) is Some,
        0 <= i <= field_list(j)->Some_0.len(),
        fields_from(j, i) is Some,
    ensures
        fields_from(j, i)->Some_0.len() == field_list(j)->Some_0.len() - i,
        forall|k: int| 0 <= k < field_list(j)->Some_0.len() - i ==> field_model(#[trigger] field_list(j)->Some_0[i + k]) == Some(fields_from(j, i)->Some_0[k]),
    decreases field_list(j)->Some_0.len() - i,
{
    let e = j->Object_0;
    lemma_key_in_range(e, "fields"@, 0);
    let fs = field_list(j)->Some_0;
    if i < fs.len() {
        lemma_fields_parts(j, i + 1);
        let r = fields_from(j, i)->Some_0;
        assert forall|k: int| 0 <= k < fs.len() - i implies field_model(#[trigger] fs[i + k]) == Some(r[k]) by {
            if k > 0 {
                assert(fs[i + k] == fs[(i + 1) + (k - 1)]);
            }
        }
    }
}

// ---------------------------------------------------------------------------
// Decoding what encoding wrote
// ---------------------------------------------------------------------------

proof fn lemma_nested(j: JsonModel, k: Text)
    requires
        j is Object,
    ensures
        nested_model(j, k) == match member(j->Object_0, k) {
            Some(v) => decode_model(v),
            None => None,
        },
{
    lemma_key_in_range(j->Object_0, k, 0);
}

proof fn lemma_union_round_trip(j: JsonModel, i: int)
    requires
        j is Array,
        union_model(j, 0) is Some,
        0 <= i <= j->Array_0.len(),
    ensures
        union_model(encode_model(SchemaModel::Union(union_model(j, 0)->Some_0)), i) == Some(union_model(j, 0)->Some_0.skip(i)),
    decreases j, 1int, j->Array_0.len() - i,
{
    let v = j->Array_0;
    let alts = union_model(j, 0)->Some_0;
    lemma_union_parts(j, 0);
    let w = encode_model(SchemaModel::Union(alts));
    if i < v.len() {
        lemma_union_round_trip(j, i + 1);
        assert(decode_model(v[0 + i]) == Some(alts[i]));
        lemma_round_trip(v[i]);
        assert(w->Array_0[i] == encode_model(alts[i]));
        assert(seq![alts[i]] + alts.skip(i + 1) =~= alts.skip(i));
    } else {
        assert(alts.skip(i) =~= Seq::<SchemaModel>::empty());
    }
}

proof fn lemma_field_round_trip(fj: JsonModel)
    requires
        field_model(fj) is Some,
    ensures
        field_model(field_json(field_model(fj)->Some_0)) == field_model(fj),
    decreases fj, 2int, 0int,
{
    broadcast use lemma_member_concat, lemma_member_text, lemma_member_single, lemma_member_opt;

    lemma_words();
    let e = fj->Object_0;
    let f = field_model(fj)->Some_0;
    lemma_nested(fj, "type"@);
    lemma_key_in_range(e, "type"@, 0);
    let idx = key_index(e, "type"@)->Some_0;
    lemma_round_trip(e[idx].1);
    let enc = field_json(f);
    lemma_nested(enc, "type"@);
    let ee = enc->Object_0;
    assert(member(ee, "type"@) == Some(encode_model(f.field_type)));
    assert(member(ee, "name"@) == Some(JsonModel::Str(f.name)));
}

proof fn lemma_fields_round_trip(j: JsonModel, enc: JsonModel, fj: Seq<JsonModel>, i: int)
    requires
        j is Object,
        fields_model(j) is Some,
        enc is Object,
        member(enc->Object_0, "fields"@) == Some(JsonModel::Array(fj)),
        fj.len() == fields_model(j)->Some_0.len(),
        forall|q: int| 0 <= q < fj.len() ==> #[trigger] fj[q] == field_json(fields_model(j)->Some_0[q]),
        0 <= i <= fj.len(),
    ensures
        fields_from(enc, i) == Some(fields_model(j)->Some_0.skip(i)),
    decreases j, 0int, fj.len() - i,
{
    let fields = fields_model(j)->Some_0;
    let e = j->Object_0;
    lemma_key_in_range(e, "fields"@, 0);
    lemma_key_in_range(enc->Object_0, "fields"@, 0);
    lemma_fields_parts(j, 0);
    let fs = field_list(j)->Some_0;
    if i < fj.len() {
        lemma_fields_round_trip(j, enc, fj, i + 1);
        assert(field_model(fs[0 + i]) == Some(fields[i]));
        lemma_field_round_trip(fs[i]);
        assert(seq![fields[i]] + fields.skip(i + 1) =~= fields.skip(i));
    } else {
        assert(fields.skip(i) =~= Seq::<FieldModel>::empty());
    }
}

proof fn lemma_attributes_round_trip(p: Entries, a: AttributesModel)
    requires
        open_keys(a.additional),
        open_from(p, 0) == Seq::<(Text, JsonModel)>::empty(),
        member(p, "logicalType"@) is None,
    ensures
        attributes_of(p + attribute_entries(a)) == Some(a),
{
    broadcast use lemma_member_concat, lemma_member_opt, lemma_member_open, lemma_open_concat, lemma_open_all, lemma_open_opt;

    lemma_words();
    assert(Seq::<(Text, JsonModel)>::empty() + (Seq::<(Text, JsonModel)>::empty() + a.additional) =~= a.additional);
}

/// A reserved key other than the logical type is never found among the attributes.
proof fn lemma_member_prefix(p: Entries, a: AttributesModel, k: Text)
    requires
        open_keys(a.additional),
        is_reserved(k),
        k != "logicalType"@,
    ensures
        member(p + attribute_entries(a), k) == member(p, k),
{
    lemma_member_concat(p, attribute_entries(a), k);
    lemma_member_concat(opt_entry("logicalType"@, a.logical_type), a.additional, k);
    lemma_member_opt("logicalType"@, a.logical_type, k);
    lemma_member_open(a.additional, k);
}

#[verifier::spinoff_prover]
proof fn lemma_record_round_trip(j: JsonModel)
    requires
        j is Object,
        complex_model(j, "record"@) is Some,
    ensures
        decode_model(encode_model(complex_model(j, "record"@)->Some_0)) == complex_model(j, "record"@),
    decreases j, 1int, 0int,
{
    lemma_words();
    let e = j->Object_0;
    let m = complex_model(j, "record"@)->Some_0;
    lemma_attributes_open(e);
    let enc = encode_model(m);
    let ee = enc->Object_0;
    let fields = fields_model(j)->Some_0;
    let attributes = attributes_of(e)->Some_0;
    let p = text_entry("type"@, "record"@) + text_entry("name"@, m->Record_name) + opt_entry("namespace"@, m->Record_namespace)
        + opt_entry("doc"@, m->Record_doc) + seq![("aliases"@, text_array(m->Record_aliases))];
    let fj = ee[p.len() as int].1->Array_0;
    let q = p + seq![("fields"@, JsonModel::Array(fj))];
    assert(ee =~= q + attribute_entries(attributes));
    lemma_text_list(m->Record_aliases);
    lemma_member_prefix(q, attributes, "type"@);
    lemma_member_prefix(q, attributes, "name"@);
    lemma_member_prefix(q, attributes, "namespace"@);
    lemma_member_prefix(q, attributes, "doc"@);
    lemma_member_prefix(q, attributes, "aliases"@);
    lemma_member_prefix(q, attributes, "fields"@);
    assert(member(q, "type"@) == Some(JsonModel::Str("record"@))
        && member(q, "name"@) == Some(JsonModel::Str(m->Record_name))
        && opt_text_member(q, "namespace"@) == Some(m->Record_namespace)
        && opt_text_member(q, "doc"@) == Some(m->Record_doc)
        && member(q, "aliases"@) == Some(text_array(m->Record_aliases))
        && member(q, "fields"@) == Some(JsonModel::Array(fj))) by {
        broadcast use lemma_member_concat, lemma_member_text, lemma_member_single, lemma_member_opt;
    }
    lemma_fields_round_trip(j, enc, fj, 0);
    assert(fields.skip(0) =~= fields);
    lemma_record_open(p, fj, m->Record_name, m->Record_namespace, m->Record_doc, m->Record_aliases);
    lemma_attributes_round_trip(q, attributes);
    assert(fields_model(enc) == Some(fields));
    assert(aliases_member(ee) == Some(m->Record_aliases));
    assert(attributes_of(ee) == Some(attributes));
    assert(req_text_member(ee, "name"@) == Some(m->Record_name));
    assert(complex_model(enc, "record"@) == Some(m));
    assert(decode_model(enc) == complex_model(enc, "record"@));
}

proof fn lemma_record_open(p: Entries, fj: Seq<JsonModel>, name: Text, namespace: Option<Text>, doc: Option<Text>, aliases: Seq<Text>)
    requires
        p == text_entry("type"@, "record"@) + text_entry("name"@, name) + opt_entry("namespace"@, namespace)
            + opt_entry("doc"@, doc) + seq![("aliases"@, text_array(aliases))],
    ensures
        open_from(p + seq![("fields"@, JsonModel::Array(fj))], 0) == Seq::<(Text, JsonModel)>::empty(),
        member(p + seq![("fields"@, JsonModel::Array(fj))], "logicalType"@) is None,
{
    broadcast use lemma_member_concat, lemma_member_text, lemma_member_single, lemma_member_opt, lemma_open_concat,
        lemma_open_text, lemma_open_single, lemma_open_opt;

    lemma_words();
    let e = Seq::<(Text, JsonModel)>::empty();
    assert(e + e + e + e + e + e =~= e);
}

#[verifier::spinoff_prover]
proof fn lemma_enum_round_trip(j: JsonModel)
    requires
        j is Object,
        complex_model(j, "enum"@) is Some,
    ensures
        decode_model(encode_model(complex_model(j, "enum"@)->Some_0)) == complex_model(j, "enum"@),
{
    lemma_words();
    let e = j->Object_0;
    let m = complex_model(j, "enum"@)->Some_0;
    lemma_attributes_open(e);
    let ee = encode_model(m)->Object_0;
    let attributes = attributes_of(e)->Some_0;
    lemma_text_list(m->Enum_aliases);
    lemma_text_list(m->Enum_symbols);
    let p = text_entry("type"@, "enum"@) + text_entry("name"@, m->Enum_name) + opt_entry("namespace"@, m->Enum_namespace)
        + opt_entry("doc"@, m->Enum_doc) + seq![("aliases"@, text_array(m->Enum_aliases))]
        + seq![("symbols"@, text_array(m->Enum_symbols))] + opt_entry("default"@, m->Enum_default);
    assert(ee =~= p + attribute_entries(attributes));
    lemma_member_prefix(p, attributes, "type"@);
    lemma_member_prefix(p, attributes, "name"@);
    lemma_member_prefix(p, attributes, "namespace"@);
    lemma_member_prefix(p, attributes, "doc"@);
    lemma_member_prefix(p, attributes, "aliases"@);
    lemma_member_prefix(p, attributes, "symbols"@);
    lemma_member_prefix(p, attributes, "default"@);
    assert(member(p, "type"@) == Some(JsonModel::Str("enum"@))
        && member(p, "name"@) == Some(JsonModel::Str(m->Enum_name))
        && opt_text_member(p, "namespace"@) == Some(m->Enum_namespace)
        && opt_text_member(p, "doc"@) == Some(m->Enum_doc)
        && member(p, "aliases"@) == Some(text_array(m->Enum_aliases))
        && member(p, "symbols"@) == Some(text_array(m->Enum_symbols))
        && opt_text_member(p, "default"@) == Some(m->Enum_default)
        && member(p, "logicalType"@) is None) by {
        broadcast use lemma_member_concat, lemma_member_text, lemma_member_single, lemma_member_opt;
    }
    assert(open_from(p, 0) == Seq::<(Text, JsonModel)>::empty()) by {
        broadcast use lemma_open_concat, lemma_open_text, lemma_open_single, lemma_open_opt;

        let z = Seq::<(Text, JsonModel)>::empty();
        assert(z + z + z + z + z + z + z =~= z);
    }
    lemma_attributes_round_trip(p, attributes);
}

#[verifier::spinoff_prover]
proof fn lemma_nested_round_trip(j: JsonModel, t: Text)
    requires
        j is Object,
        t == "array"@ || t == "map"@,
        complex_model(j, t) is Some,
    ensures
        decode_model(encode_model(complex_model(j, t)->Some_0)) == complex_model(j, t),
    decreases j, 1int, 0int,
{
    lemma_words();
    let e = j->Object_0;
    let m = complex_model(j, t)->Some_0;
    lemma_attributes_open(e);
    let enc = encode_model(m);
    let ee = enc->Object_0;
    let k = if t == "array"@ { "items"@ } else { "values"@ };
    let attributes = attributes_of(e)->Some_0;
    lemma_nested(j, k);
    lemma_key_in_range(e, k, 0);
    let idx = key_index(e, k)->Some_0;
    lemma_round_trip(e[idx].1);
    lemma_nested(enc, k);
    let inner = decode_model(e[idx].1)->Some_0;
    let p = text_entry("type"@, t) + seq![(k, encode_model(inner))];
    assert(ee =~= p + attribute_entries(attributes));
    lemma_member_prefix(p, attributes, "type"@);
    lemma_member_prefix(p, attributes, k);
    assert(member(p, "type"@) == Some(JsonModel::Str(t)) && member(p, k) == Some(encode_model(inner))
        && member(p, "logicalType"@) is None) by {
        broadcast use lemma_member_concat, lemma_member_text, lemma_member_single;
    }
    assert(open_from(p, 0) == Seq::<(Text, JsonModel)>::empty()) by {
        broadcast use lemma_open_concat, lemma_open_text, lemma_open_single;

        let z = Seq::<(Text, JsonModel)>::empty();
        assert(z + z =~= z);
    }
    lemma_attributes_round_trip(p, attributes);
}

#[verifier::spinoff_prover]
proof fn lemma_fixed_round_trip(j: JsonModel)
    requires
        j is Object,
        complex_model(j, "fixed"@) is Some,
    ensures
        decode_model(encode_model(complex_model(j, "fixed"@)->Some_0)) == complex_model(j, "fixed"@),
{
    lemma_words();
    let e = j->Object_0;
    let m = complex_model(j, "fixed"@)->Some_0;
    lemma_attributes_open(e);
    let ee = encode_model(m)->Object_0;
    let attributes = attributes_of(e)->Some_0;
    lemma_text_list(m->Fixed_aliases);
    lemma_decimal(m->Fixed_size);
    let p = text_entry("type"@, "fixed"@) + text_entry("name"@, m->Fixed_name) + opt_entry("namespace"@, m->Fixed_namespace)
        + seq![("aliases"@, text_array(m->Fixed_aliases))] + seq![("size"@, JsonModel::Number(decimal_text(m->Fixed_size)))];
    assert(ee =~= p + attribute_entries(attributes));
    lemma_member_prefix(p, attributes, "type"@);
    lemma_member_prefix(p, attributes, "name"@);
    lemma_member_prefix(p, attributes, "namespace"@);
    lemma_member_prefix(p, attributes, "aliases"@);
    lemma_member_prefix(p, attributes, "size"@);
    assert(member(p, "type"@) == Some(JsonModel::Str("fixed"@))
        && member(p, "name"@) == Some(JsonModel::Str(m->Fixed_name))
        && opt_text_member(p, "namespace"@) == Some(m->Fixed_namespace)
        && member(p, "aliases"@) == Some(text_array(m->Fixed_aliases))
        && member(p, "size"@) == Some(JsonModel::Number(decimal_text(m->Fixed_size)))
        && member(p, "logicalType"@) is None) by {
        broadcast use lemma_member_concat, lemma_member_text, lemma_member_single, lemma_member_opt;
    }
    assert(open_from(p, 0) == Seq::<(Text, JsonModel)>::empty()) by {
        broadcast use lemma_open_concat, lemma_open_text, lemma_open_single, lemma_open_opt;

        let z = Seq::<(Text, JsonModel)>::empty();
        assert(z + z + z + z + z =~= z);
    }
    lemma_attributes_round_trip(p, attributes);
}

proof fn lemma_type_round_trip(j: JsonModel, t: Text)
    requires
        j is Object,
        member(j->Object_0, "type"@) == Some(JsonModel::Str(t)),
        !is_complex_tag(t),
        decode_model(j) is Some,
    ensures
        decode_model(encode_model(decode_model(j)->Some_0)) == decode_model(j),
{
    broadcast use lemma_member_concat, lemma_member_text;

    lemma_words();
    let e = j->Object_0;
    lemma_name(t);
    lemma_attributes_open(e);
    let a = attributes_of(e)->Some_0;
    let base = type_name_of(t);
    reveal_with_fuel(open_from, 2);
    assert(open_from(text_entry("type"@, name_text(base)), 1) == Seq::<(Text, JsonModel)>::empty());
    lemma_attributes_round_trip(text_entry("type"@, name_text(base)), a);
    assert(member(encode_model(decode_model(j)->Some_0)->Object_0, "type"@) == Some(JsonModel::Str(name_text(base))));
}

/// Round trip: encoding a decoded schema and decoding the result gives the
/// same schema back.
pub proof fn lemma_round_trip(j: JsonModel)
    requires
        decode_model(j) is Some,
    ensures
        decode_model(encode_model(decode_model(j)->Some_0)) == decode_model(j),
    decreases j, 2int, 0int,
{
    lemma_words();
    match j {
        JsonModel::Str(s) => {
            lemma_name(s);
        },
        JsonModel::Array(v) => {
            lemma_union_round_trip(j, 0);
            let alts = union_model(j, 0)->Some_0;
            assert(alts.skip(0) =~= alts);
        },
        JsonModel::Object(e) => {
            let t = member(e, "type"@)->Some_0->Str_0;
            if t == "record"@ {
                lemma_record_round_trip(j);
            } else if t == "enum"@ {
                lemma_enum_round_trip(j);
            } else if t == "array"@ || t == "map"@ {
                lemma_nested_round_trip(j, t);
            } else if t == "fixed"@ {
                lemma_fixed_round_trip(j);
            } else {
                lemma_type_round_trip(j, t);
            }
        },
        _ => {},
    }
}

/// A bare string decodes to a type name: each reserved word to its primitive
/// type, and any other string to a reference holding exactly that string.
pub proof fn lemma_bare_names(s: Text)
    ensures
        decode_model(JsonModel::Str(s)) == Some(SchemaModel::TypeName(type_name_of(s))),
        forall|p: PrimitiveType| type_name_of(#[trigger] primitive_word(p)) == TypeNameModel::Primitive(p),
        primitive_of(s) is None ==> type_name_of(s) == TypeNameModel::Ref(s),
{
    lemma_words();
}

/// A record, enum or fixed declaration without "aliases" decodes with an empty alias list.
pub proof fn lemma_aliases_default(j: JsonModel)
    requires
        j is Object,
        member(j->Object_0, "aliases"@) is None,
        decode_model(j) is Some,
    ensures
        match decode_model(j)->Some_0 {
            SchemaModel::Record { aliases, .. } => aliases == Seq::<Text>::empty(),
            SchemaModel::Enum { aliases, .. } => aliases == Seq::<Text>::empty(),
            SchemaModel::Fixed { aliases, .. } => aliases == Seq::<Text>::empty(),
            _ => true,
        },
{
    assert(aliases_member(j->Object_0) == Some(Seq::<Text>::empty()));
}

} // verus!
