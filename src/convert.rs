//! Conversion of OTLP values, attributes and resources into the model.
use vstd::prelude::*;
use crate::attributes::{
    AttributeValue, Attributes, EntriesView, ValueView, upsert, values_view,
};
use crate::otlp::{AnyValue, KeyValue};
use crate::resource::{Resource, service_name_key, string_attr};
use crate::span::opt_view;
use crate::text::{hex_of, int_decimal, join, int_to_decimal, join_strings, owned};

pub mod logs;
pub mod metrics;
pub mod traces;

pub use crate::text::bytes_to_hex;

verus! {

/// The attribute value a wire value becomes: none for an unset value or a
/// key-value list; arrays keep the elements that convert.
pub open spec fn attr_of(w: AnyValue) -> Option<ValueView>
    decreases w,
{
    match w {
        AnyValue::Empty => None,
        AnyValue::String(s) => Some(ValueView::Str(s@)),
        AnyValue::Bool(b) => Some(ValueView::Bool(b)),
        AnyValue::Int(i) => Some(ValueView::Int(i)),
        AnyValue::Double(d, _) => Some(ValueView::Double(d)),
        AnyValue::Array(items) => Some(ValueView::Array(attrs_of_array(items@))),
        AnyValue::Kvlist(_) => None,
        AnyValue::Bytes(b) => Some(ValueView::Bytes(b@)),
    }
}

pub open spec fn attrs_of_array(s: Seq<AnyValue>) -> Seq<ValueView>
    decreases s,
{
    if s.len() == 0 {
        Seq::empty()
    } else {
        let rest = attrs_of_array(s.drop_last());
        match attr_of(s.last()) {
            Some(v) => rest.push(v),
            None => rest,
        }
    }
}

/// The text a wire value renders to: decimal for numbers, lowercase
/// hexadecimal for bytes, `[a,b]` for arrays (unset elements left out).
pub open spec fn any_text(w: AnyValue) -> Option<Seq<char>>
    decreases w,
{
    match w {
        AnyValue::Empty => None,
        AnyValue::String(s) => Some(s@),
        AnyValue::Bool(b) => Some(if b { "true"@ } else { "false"@ }),
        AnyValue::Int(i) => Some(int_decimal(i as int)),
        AnyValue::Double(_, t) => Some(t@),
        AnyValue::Array(items) => Some("["@ + join(array_texts(items@), ","@) + "]"@),
        AnyValue::Kvlist(_) => Some("<kvlist unsupported>"@),
        AnyValue::Bytes(b) => Some(hex_of(b@)),
    }
}

pub open spec fn array_texts(s: Seq<AnyValue>) -> Seq<Seq<char>>
    decreases s,
{
    if s.len() == 0 {
        Seq::empty()
    } else {
        let rest = array_texts(s.drop_last());
        match any_text(s.last()) {
            Some(t) => rest.push(t),
            None => rest,
        }
    }
}

/// The attributes a list of wire key-values becomes: later keys replace
/// earlier ones, and values that do not convert are dropped.
pub open spec fn attrs_from(kvs: Seq<KeyValue>) -> EntriesView
    decreases kvs.len(),
{
    if kvs.len() == 0 {
        Seq::empty()
    } else {
        let rest = attrs_from(kvs.drop_last());
        match attr_of(kvs.last().value) {
            Some(v) => upsert(rest, kvs.last().key@, v),
            None => rest,
        }
    }
}

/// The service name a wire resource names.
pub open spec fn resource_service(r: Option<crate::otlp::Resource>) -> Option<Seq<char>> {
    match r {
        Some(res) => string_attr(attrs_from(res.attributes@), service_name_key()),
        None => None,
    }
}

/// Converts a wire value; unset values and key-value lists give none.
pub fn convert_any_value(value: &AnyValue) -> (r: Option<AttributeValue>)
    ensures
        match r {
            Some(a) => attr_of(*value) == Some(a@),
            None => attr_of(*value) is None,
        },
    decreases value,
{
    match value {
        AnyValue::Empty => None,
        AnyValue::String(s) => Some(AttributeValue::String(s.clone())),
        AnyValue::Bool(b) => Some(AttributeValue::Bool(*b)),
        AnyValue::Int(i) => Some(AttributeValue::Int(*i)),
        AnyValue::Double(d, _) => Some(AttributeValue::Double(*d)),
        AnyValue::Bytes(b) => {
            let mut out: Vec<u8> = Vec::new();
            let mut i: usize = 0;
            while i < b.len()
                invariant
                    i <= b@.len(),
                    out@ == b@.subrange(0, i as int),
                decreases b@.len() - i,
            {
                out.push(b[i]);
                assert(out@ =~= b@.subrange(0, i + 1));
                i = i + 1;
            }
            assert(out@ =~= b@);
            Some(AttributeValue::Bytes(out))
        },
        AnyValue::Array(items) => {
            let mut out: Vec<AttributeValue> = Vec::new();
            let mut i: usize = 0;
            while i < items.len()
                invariant
                    *value == AnyValue::Array(*items),
                    i <= items@.len(),
                    values_view(out@) == attrs_of_array(items@.subrange(0, i as int)),
                decreases items@.len() - i,
            {
                proof {
                    broadcast use vstd::std_specs::vec::axiom_vec_index_decreases;
                    assert(decreases_to!(*value => (*value)->Array_0));
                    assert(decreases_to!(*items => items[i as int]));
                }
                let c = convert_any_value(&items[i]);
                assert(items@.subrange(0, i + 1).drop_last() =~= items@.subrange(0, i as int));
                match c {
                    Some(a) => {
                        let ghost before = out@;
                        out.push(a);
                        assert(out@.drop_last() =~= before);
                    },
                    None => {},
                }
                i = i + 1;
            }
            assert(items@.subrange(0, items@.len() as int) =~= items@);
            Some(AttributeValue::Array(out))
        },
        AnyValue::Kvlist(_) => None,
    }
}

/// Renders a wire value as text; an unset value gives none.
pub fn convert_any_value_to_string(value: &AnyValue) -> (r: Option<String>)
    ensures
        opt_view(r) == any_text(*value),
    decreases value,
{
    match value {
        AnyValue::Empty => None,
        AnyValue::String(s) => Some(s.clone()),
        AnyValue::Bool(b) => {
            if *b {
                Some(owned("true"))
            } else {
                Some(owned("false"))
            }
        },
        AnyValue::Int(i) => Some(int_to_decimal(*i)),
        AnyValue::Double(_, t) => Some(t.clone()),
        AnyValue::Bytes(b) => Some(bytes_to_hex(b.as_slice())),
        AnyValue::Array(items) => {
            let mut texts: Vec<String> = Vec::new();
            let mut i: usize = 0;
            while i < items.len()
                invariant
                    *value == AnyValue::Array(*items),
                    i <= items@.len(),
                    texts@.map_values(|p: String| p@) == array_texts(items@.subrange(0, i as int)),
                decreases items@.len() - i,
            {
                proof {
                    broadcast use vstd::std_specs::vec::axiom_vec_index_decreases;
                    assert(decreases_to!(*value => (*value)->Array_0));
                    assert(decreases_to!(*items => items[i as int]));
                }
                let c = convert_any_value_to_string(&items[i]);
                assert(items@.subrange(0, i + 1).drop_last() =~= items@.subrange(0, i as int));
                match c {
                    Some(t) => {
                        let ghost before = texts@;
                        texts.push(t);
                        assert(texts@.map_values(|p: String| p@) =~= before.map_values(
                            |p: String| p@,
                        ).push(texts@.last()@));
                    },
                    None => {},
                }
                i = i + 1;
            }
            assert(items@.subrange(0, items@.len() as int) =~= items@);
            let joined = join_strings(&texts, ",");
            let mut out = owned("[");
            out.append(joined.as_str());
            out.append("]");
            Some(out)
        },
        AnyValue::Kvlist(_) => Some(owned("<kvlist unsupported>")),
    }
}

/// Converts wire key-values into attributes.
pub fn convert_attributes(kvs: &Vec<KeyValue>) -> (r: Attributes)
    ensures
        r@ == attrs_from(kvs@),
{
    let mut out = Attributes::new();
    let mut i: usize = 0;
    while i < kvs.len()
        invariant
            i <= kvs@.len(),
            out@ == attrs_from(kvs@.subrange(0, i as int)),
        decreases kvs@.len() - i,
    {
        assert(kvs@.subrange(0, i + 1).drop_last() =~= kvs@.subrange(0, i as int));
        let kv = &kvs[i];
        match convert_any_value(&kv.value) {
            Some(v) => {
                out.insert(kv.key.clone(), v);
            },
            None => {},
        }
        i = i + 1;
    }
    assert(kvs@.subrange(0, kvs@.len() as int) =~= kvs@);
    out
}

/// Converts a wire resource.
pub fn convert_resource(resource: &crate::otlp::Resource) -> (r: Resource)
    ensures
        r.attributes@ == attrs_from(resource.attributes@),
{
    Resource::new(convert_attributes(&resource.attributes))
}

/// The service name that a wire resource carries, copied.
pub fn service_of(resource: &Option<crate::otlp::Resource>) -> (r: Option<String>)
    ensures
        opt_view(r) == resource_service(*resource),
{
    match resource {
        Some(res) => {
            let converted = convert_resource(res);
            match converted.service_name() {
                Some(s) => Some(owned(s)),
                None => None,
            }
        },
        None => None,
    }
}

} // verus!
