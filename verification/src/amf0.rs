//! The AMF0 value codec: a self-delimiting binary format for dynamic values
//! used inside RTMP command and data messages.
//!
//! Values are numbers, booleans, UTF-8 strings, objects (ordered lists of
//! named properties) and null.  Every value starts with a one-byte marker;
//! strings and property names are length-prefixed UTF-8; an object ends with
//! a zero-length property name followed by the object-end marker.
//!
//! Numbers are IEEE-754 64-bit values on the wire; this crate carries them as
//! their raw bit pattern (a `u64`), which the codec moves verbatim, leaving
//! floating-point interpretation to the caller.

use vstd::prelude::*;
use vstd::utf8::{decode_utf8, encode_utf8, valid_utf8};

use crate::utils::{
    be_u16_of, be_u64_of, read_u16_be, read_u64_be, u16_be_bytes, u64_be_bytes, write_u16_be,
    write_u64_be,
};

verus! {

pub const NUMBER_MARKER: u8 = 0;

pub const BOOLEAN_MARKER: u8 = 1;

pub const STRING_MARKER: u8 = 2;

pub const OBJECT_MARKER: u8 = 3;

pub const NULL_MARKER: u8 = 5;

pub const OBJECT_END_MARKER: u8 = 9;

/// The longest byte length a string or property name may have on the wire:
/// the capacity of the 2-byte length prefix.
pub const MAX_STRING_LENGTH: usize = 65535;

/// Why a byte sequence failed to decode as AMF0 values.
#[derive(Eq, PartialEq, Structural, Debug, Copy, Clone)]
pub enum Amf0DeserializationError {
    /// A value began with a marker byte the format does not define.
    UnknownMarker(u8),
    /// A zero-length property name was not followed by the object-end marker.
    UnexpectedEmptyObjectPropertyName,
    /// The input ended in the middle of a value.
    UnexpectedEof,
    /// A string or property name held bytes that are not valid UTF-8.
    InvalidUtf8,
}

/// Why a value sequence failed to encode.
#[derive(Eq, PartialEq, Structural, Debug, Copy, Clone)]
pub enum Amf0SerializationError {
    /// A string or property name was longer than 65535 bytes.
    StringTooLong,
}

/// A single named property of an AMF0 object.
#[derive(PartialEq, Debug)]
pub struct Amf0Property {
    pub name: String,
    pub value: Amf0Value,
}

/// An AMF0 object: a list of named properties in wire order.
#[derive(PartialEq, Debug)]
pub struct Amf0Object {
    pub properties: Vec<Amf0Property>,
}

/// A dynamic AMF0 value.  `Number` holds the IEEE-754 bit pattern of the
/// 64-bit value carried on the wire.
#[derive(PartialEq, Debug)]
pub enum Amf0Value {
    Number(u64),
    Boolean(bool),
    Utf8String(String),
    Object(Amf0Object),
    Null,
}

/// The mathematical content of a property: its name's characters and the
/// model of its value.
#[verifier::ext_equal]
pub struct Amf0PropertyView {
    pub name: Seq<char>,
    pub value: Amf0ValueView,
}

/// The mathematical content of an AMF0 value.
#[verifier::ext_equal]
pub enum Amf0ValueView {
    Number(u64),
    Boolean(bool),
    Utf8String(Seq<char>),
    Object(Seq<Amf0PropertyView>),
    Null,
}

/// The model of a value.
pub open spec fn value_view(v: Amf0Value) -> Amf0ValueView
    decreases v,
{
    match v {
        Amf0Value::Number(n) => Amf0ValueView::Number(n),
        Amf0Value::Boolean(b) => Amf0ValueView::Boolean(b),
        Amf0Value::Utf8String(s) => Amf0ValueView::Utf8String(s@),
        Amf0Value::Object(obj) => Amf0ValueView::Object(props_view(obj.properties@)),
        Amf0Value::Null => Amf0ValueView::Null,
    }
}

/// The model of a property list.
pub open spec fn props_view(s: Seq<Amf0Property>) -> Seq<Amf0PropertyView>
    decreases s,
{
    if s.len() == 0 {
        Seq::empty()
    } else {
        seq![Amf0PropertyView { name: s[0].name@, value: value_view(s[0].value) }] + props_view(
            s.drop_first(),
        )
    }
}

/// The model of a value list.
pub open spec fn values_view(s: Seq<Amf0Value>) -> Seq<Amf0ValueView>
    decreases s,
{
    if s.len() == 0 {
        Seq::empty()
    } else {
        seq![value_view(s[0])] + values_view(s.drop_first())
    }
}

impl View for Amf0Value {
    type V = Amf0ValueView;

    open spec fn view(&self) -> Amf0ValueView {
        value_view(*self)
    }
}

impl View for Amf0Property {
    type V = Amf0PropertyView;

    open spec fn view(&self) -> Amf0PropertyView {
        Amf0PropertyView { name: self.name@, value: value_view(self.value) }
    }
}

impl View for Amf0Object {
    type V = Seq<Amf0PropertyView>;

    open spec fn view(&self) -> Seq<Amf0PropertyView> {
        props_view(self.properties@)
    }
}

/// A property list's model has one entry per property, in order.
pub proof fn lemma_props_view_index(s: Seq<Amf0Property>)
    ensures
        props_view(s).len() == s.len(),
        forall|i: int| 0 <= i < s.len() ==> props_view(s)[i] == s[i]@,
    decreases s.len(),
{
    if s.len() > 0 {
        lemma_props_view_index(s.drop_first());
    }
}

/// A value list's model has one entry per value, in order.
pub proof fn lemma_values_view_index(s: Seq<Amf0Value>)
    ensures
        values_view(s).len() == s.len(),
        forall|i: int| 0 <= i < s.len() ==> values_view(s)[i] == s[i]@,
    decreases s.len(),
{
    if s.len() > 0 {
        lemma_values_view_index(s.drop_first());
    }
}

/// Appending a value to a list appends its model to the list's model.
pub proof fn lemma_values_view_push(s: Seq<Amf0Value>, v: Amf0Value)
    ensures
        values_view(s.push(v)) == values_view(s).push(value_view(v)),
{
    lemma_values_view_index(s.push(v));
    lemma_values_view_index(s);
    assert(values_view(s.push(v)) =~= values_view(s).push(value_view(v)));
}

/// The value of the first property with the given name, if any.
pub open spec fn spec_find_property(props: Seq<Amf0PropertyView>, name: Seq<char>) -> Option<
    Amf0ValueView,
>
    decreases props.len(),
{
    if props.len() == 0 {
        None
    } else if props[0].name == name {
        Some(props[0].value)
    } else {
        spec_find_property(props.drop_first(), name)
    }
}

impl Amf0Object {
    /// An object with no properties.
    pub fn new() -> (r: Amf0Object)
        ensures
            r@ == Seq::<Amf0PropertyView>::empty(),
    {
        let r = Amf0Object { properties: Vec::new() };
        proof {
            assert(r@ =~= Seq::<Amf0PropertyView>::empty());
        }
        r
    }

    /// Appends a property, keeping wire order: a repeated name is written
    /// again rather than replaced.
    pub fn insert(&mut self, name: String, value: Amf0Value)
        ensures
            final(self)@ == old(self)@.push(
                Amf0PropertyView { name: name@, value: value_view(value) },
            ),
    {
        let ghost entry = Amf0PropertyView { name: name@, value: value_view(value) };
        self.properties.push(Amf0Property { name, value });
        proof {
            lemma_props_view_index(self.properties@);
            lemma_props_view_index(old(self).properties@);
            assert(self@ =~= old(self)@.push(entry));
        }
    }

    /// The value of the first property with the given name, if any.
    pub fn get(&self, name: &String) -> (r: Option<&Amf0Value>)
        ensures
            match spec_find_property(self@, name@) {
                None => r is None,
                Some(v) => r matches Some(x) && x@ == v,
            },
    {
        proof {
            lemma_props_view_index(self.properties@);
            assert(self@.skip(0) =~= self@);
        }
        let mut i: usize = 0;
        while i < self.properties.len()
            invariant
                i <= self.properties@.len(),
                self@.len() == self.properties@.len(),
                forall|j: int| 0 <= j < self@.len() ==> self@[j] == self.properties@[j]@,
                spec_find_property(self@.skip(i as int), name@) == spec_find_property(self@, name@),
            decreases self.properties@.len() - i,
        {
            let property = &self.properties[i];
            if property.name == *name {
                return Some(&property.value);
            }
            proof {
                assert(self@.skip(i as int).drop_first() =~= self@.skip(i + 1));
            }
            i = i + 1;
        }
        proof {
            assert(self@.skip(self@.len() as int) =~= Seq::<Amf0PropertyView>::empty());
        }
        None
    }
}

/// Whether a value fits the wire format: every string and property name is at
/// most 65535 bytes of UTF-8.
pub open spec fn value_encodable(v: Amf0ValueView) -> bool
    decreases v,
{
    match v {
        Amf0ValueView::Number(_) => true,
        Amf0ValueView::Boolean(_) => true,
        Amf0ValueView::Utf8String(s) => encode_utf8(s).len() <= MAX_STRING_LENGTH,
        Amf0ValueView::Object(props) => props_encodable(props),
        Amf0ValueView::Null => true,
    }
}

/// Whether one property fits the wire format: its name fits the 2-byte
/// length prefix and its value is encodable.
pub open spec fn prop_encodable(p: Amf0PropertyView) -> bool
    decreases p,
{
    encode_utf8(p.name).len() <= MAX_STRING_LENGTH && value_encodable(p.value)
}

/// Whether every property of a list fits the wire format.
pub open spec fn props_encodable(props: Seq<Amf0PropertyView>) -> bool
    decreases props,
{
    if props.len() == 0 {
        true
    } else {
        prop_encodable(props[0]) && props_encodable(props.drop_first())
    }
}

/// Whether every value of a list fits the wire format.
pub open spec fn values_encodable(vs: Seq<Amf0ValueView>) -> bool
    decreases vs,
{
    if vs.len() == 0 {
        true
    } else {
        value_encodable(vs[0]) && values_encodable(vs.drop_first())
    }
}

/// The wire encoding of one value.
pub open spec fn spec_encode_value(v: Amf0ValueView) -> Seq<u8>
    decreases v,
{
    match v {
        Amf0ValueView::Number(n) => seq![NUMBER_MARKER] + u64_be_bytes(n),
        Amf0ValueView::Boolean(b) => seq![BOOLEAN_MARKER, if b { 1u8 } else { 0u8 }],
        Amf0ValueView::Utf8String(s) => seq![STRING_MARKER] + u16_be_bytes(
            encode_utf8(s).len() as u16,
        ) + encode_utf8(s),
        Amf0ValueView::Object(props) => seq![OBJECT_MARKER] + spec_encode_properties(props) + seq![
            0u8,
            0u8,
            OBJECT_END_MARKER,
        ],
        Amf0ValueView::Null => seq![NULL_MARKER],
    }
}

/// The wire encoding of an object's property list, without the trailing
/// end-of-object sentinel.
pub open spec fn spec_encode_properties(props: Seq<Amf0PropertyView>) -> Seq<u8>
    decreases props,
{
    if props.len() == 0 {
        Seq::empty()
    } else {
        u16_be_bytes(encode_utf8(props[0].name).len() as u16) + encode_utf8(props[0].name)
            + spec_encode_value(props[0].value) + spec_encode_properties(props.drop_first())
    }
}

/// The wire encoding of a value sequence: the values' encodings, one after
/// the other.
pub open spec fn spec_encode_values(vs: Seq<Amf0ValueView>) -> Seq<u8>
    decreases vs,
{
    if vs.len() == 0 {
        Seq::empty()
    } else {
        spec_encode_value(vs[0]) + spec_encode_values(vs.drop_first())
    }
}

/// The result of decoding one item from a byte sequence: the item and the
/// bytes that follow it.
pub type SpecDecoded<T> = Result<(T, Seq<u8>), Amf0DeserializationError>;

/// Decodes the first value of a byte sequence, returning it with the
/// remaining bytes.
pub open spec fn spec_decode_value(b: Seq<u8>) -> SpecDecoded<Amf0ValueView>
    decreases b.len(), 1int,
{
    if b.len() == 0 {
        Err(Amf0DeserializationError::UnexpectedEof)
    } else if b[0] == NUMBER_MARKER {
        if b.len() < 9 {
            Err(Amf0DeserializationError::UnexpectedEof)
        } else {
            Ok((Amf0ValueView::Number(be_u64_of(b.subrange(1, 9)) as u64), b.skip(9)))
        }
    } else if b[0] == BOOLEAN_MARKER {
        if b.len() < 2 {
            Err(Amf0DeserializationError::UnexpectedEof)
        } else {
            Ok((Amf0ValueView::Boolean(b[1] != 0), b.skip(2)))
        }
    } else if b[0] == STRING_MARKER {
        if b.len() < 3 {
            Err(Amf0DeserializationError::UnexpectedEof)
        } else {
            let len = be_u16_of(b.subrange(1, 3));
            if b.len() < 3 + len {
                Err(Amf0DeserializationError::UnexpectedEof)
            } else {
                let text = b.subrange(3, 3 + len);
                if valid_utf8(text) {
                    Ok((Amf0ValueView::Utf8String(decode_utf8(text)), b.skip(3 + len)))
                } else {
                    Err(Amf0DeserializationError::InvalidUtf8)
                }
            }
        }
    } else if b[0] == OBJECT_MARKER {
        match spec_decode_properties(b.skip(1)) {
            Ok((props, rest)) => Ok((Amf0ValueView::Object(props), rest)),
            Err(e) => Err(e),
        }
    } else if b[0] == NULL_MARKER {
        Ok((Amf0ValueView::Null, b.skip(1)))
    } else {
        Err(Amf0DeserializationError::UnknownMarker(b[0]))
    }
}

/// Decodes an object's properties up to and including the end-of-object
/// sentinel, returning them with the remaining bytes.
pub open spec fn spec_decode_properties(b: Seq<u8>) -> SpecDecoded<Seq<Amf0PropertyView>>
    decreases b.len(), 0int,
{
    if b.len() < 2 {
        Err(Amf0DeserializationError::UnexpectedEof)
    } else {
        let name_len = be_u16_of(b.subrange(0, 2));
        if name_len == 0 {
            if b.len() < 3 {
                Err(Amf0DeserializationError::UnexpectedEof)
            } else if b[2] == OBJECT_END_MARKER {
                Ok((Seq::empty(), b.skip(3)))
            } else {
                Err(Amf0DeserializationError::UnexpectedEmptyObjectPropertyName)
            }
        } else if b.len() < 2 + name_len {
            Err(Amf0DeserializationError::UnexpectedEof)
        } else {
            let name_bytes = b.subrange(2, 2 + name_len);
            if !valid_utf8(name_bytes) {
                Err(Amf0DeserializationError::InvalidUtf8)
            } else {
                match spec_decode_value(b.skip(2 + name_len)) {
                    Err(e) => Err(e),
                    Ok((value, rest)) => if rest.len() < b.len() {
                        match spec_decode_properties(rest) {
                            Err(e) => Err(e),
                            Ok((props, rest2)) => Ok(
                                (
                                    seq![
                                        Amf0PropertyView {
                                            name: decode_utf8(name_bytes),
                                            value: value,
                                        },
                                    ] + props,
                                    rest2,
                                ),
                            ),
                        }
                    } else {
                        // Decoding a value always consumes at least one byte,
                        // so this branch is unreachable.
                        Err(Amf0DeserializationError::UnexpectedEof)
                    },
                }
            }
        }
    }
}

/// Decodes a whole byte sequence as consecutive values until the end of the
/// input.
pub open spec fn spec_decode_values(b: Seq<u8>) -> Result<
    Seq<Amf0ValueView>,
    Amf0DeserializationError,
>
    decreases b.len(),
{
    if b.len() == 0 {
        Ok(Seq::empty())
    } else {
        match spec_decode_value(b) {
            Err(e) => Err(e),
            Ok((v, rest)) => if rest.len() < b.len() {
                match spec_decode_values(rest) {
                    Err(e) => Err(e),
                    Ok(vs) => Ok(seq![v] + vs),
                }
            } else {
                // Decoding a value always consumes at least one byte, so this
                // branch is unreachable.
                Err(Amf0DeserializationError::UnexpectedEof)
            },
        }
    }
}

/// Whatever a successful decode returns, it consumed at least one byte, and
/// what it leaves is a suffix of the input.
pub proof fn lemma_decode_value_consumes(b: Seq<u8>)
    ensures
        spec_decode_value(b) matches Ok((_, rest)) ==> rest.len() < b.len() && rest == b.skip(
            b.len() - rest.len(),
        ),
    decreases b.len(), 1int,
{
    if b.len() > 0 && b[0] == OBJECT_MARKER {
        lemma_decode_properties_consumes(b.skip(1));
        match spec_decode_properties(b.skip(1)) {
            Ok((props, rest)) => {
                assert(b.skip(1).skip(b.skip(1).len() - rest.len()) =~= b.skip(
                    b.len() - rest.len(),
                ));
            },
            Err(_) => {},
        }
    }
    match spec_decode_value(b) {
        Ok((v, rest)) => {
            assert(rest =~= b.skip(b.len() - rest.len()));
        },
        Err(_) => {},
    }
}

/// The property-list analogue of `lemma_decode_value_consumes`: the sentinel
/// alone is three bytes, so at least three bytes are consumed.
pub proof fn lemma_decode_properties_consumes(b: Seq<u8>)
    ensures
        spec_decode_properties(b) matches Ok((_, rest)) ==> rest.len() < b.len() && rest == b.skip(
            b.len() - rest.len(),
        ),
    decreases b.len(), 0int,
{
    if b.len() >= 2 {
        let name_len = be_u16_of(b.subrange(0, 2));
        if name_len == 0 {
            if b.len() >= 3 && b[2] == OBJECT_END_MARKER {
                assert(b.skip(3) =~= b.skip(b.len() - b.skip(3).len()));
            }
        } else if b.len() >= 2 + name_len && valid_utf8(b.subrange(2, 2 + name_len)) {
            lemma_decode_value_consumes(b.skip(2 + name_len));
            match spec_decode_value(b.skip(2 + name_len)) {
                Ok((value, rest)) => {
                    assert(rest =~= b.skip(b.len() - rest.len()));
                    if rest.len() < b.len() {
                        lemma_decode_properties_consumes(rest);
                        match spec_decode_properties(rest) {
                            Ok((props, rest2)) => {
                                assert(rest.skip(rest.len() - rest2.len()) =~= b.skip(
                                    b.len() - rest2.len(),
                                ));
                            },
                            Err(_) => {},
                        }
                    }
                },
                Err(_) => {},
            }
        }
    }
}

/// A value list is encodable exactly when each of its values is.
pub proof fn lemma_values_encodable_index(s: Seq<Amf0ValueView>)
    ensures
        values_encodable(s) <==> (forall|i: int| 0 <= i < s.len() ==> value_encodable(#[trigger] s[i])),
    decreases s.len(),
{
    if s.len() > 0 {
        lemma_values_encodable_index(s.drop_first());
        assert(forall|i: int| 0 < i < s.len() ==> #[trigger] s[i] == s.drop_first()[i - 1]);
        assert(forall|j: int|
            0 <= j < s.drop_first().len() ==> #[trigger] s.drop_first()[j] == s[j + 1]);
    }
}

/// A property list is encodable exactly when each name fits the length
/// prefix and each value is encodable.
pub proof fn lemma_props_encodable_index(s: Seq<Amf0PropertyView>)
    ensures
        props_encodable(s) <==> (forall|i: int| 0 <= i < s.len() ==> prop_encodable(#[trigger] s[i])),
    decreases s.len(),
{
    if s.len() > 0 {
        lemma_props_encodable_index(s.drop_first());
        assert(forall|i: int| 0 < i < s.len() ==> #[trigger] s[i] == s.drop_first()[i - 1]);
        assert(forall|j: int|
            0 <= j < s.drop_first().len() ==> #[trigger] s.drop_first()[j] == s[j + 1]);
    }
}

/// Appending a value to a list appends its encoding to the list's encoding.
pub proof fn lemma_encode_values_push(s: Seq<Amf0ValueView>, v: Amf0ValueView)
    ensures
        spec_encode_values(s.push(v)) == spec_encode_values(s) + spec_encode_value(v),
    decreases s.len(),
{
    if s.len() == 0 {
        assert(s.push(v).drop_first() =~= s);
        assert(spec_encode_values(s.push(v)) =~= spec_encode_values(s) + spec_encode_value(v));
    } else {
        assert(s.push(v).drop_first() =~= s.drop_first().push(v));
        lemma_encode_values_push(s.drop_first(), v);
        assert(spec_encode_values(s.push(v)) =~= spec_encode_values(s) + spec_encode_value(v));
    }
}

/// Appending a property to a list appends its encoding to the list's
/// encoding.
pub proof fn lemma_encode_properties_push(s: Seq<Amf0PropertyView>, p: Amf0PropertyView)
    ensures
        spec_encode_properties(s.push(p)) == spec_encode_properties(s) + u16_be_bytes(
            encode_utf8(p.name).len() as u16,
        ) + encode_utf8(p.name) + spec_encode_value(p.value),
    decreases s.len(),
{
    let one = u16_be_bytes(encode_utf8(p.name).len() as u16) + encode_utf8(p.name)
        + spec_encode_value(p.value);
    if s.len() == 0 {
        assert(s.push(p).drop_first() =~= s);
        assert(spec_encode_properties(s.push(p)) =~= spec_encode_properties(s) + one);
    } else {
        assert(s.push(p).drop_first() =~= s.drop_first().push(p));
        lemma_encode_properties_push(s.drop_first(), p);
        assert(spec_encode_properties(s.push(p)) =~= spec_encode_properties(s) + one);
    }
}

/// Whether a value's encoding decodes back to it: every string fits the
/// 2-byte length prefix, and every property name does too and is nonempty,
/// since a zero-length name on the wire marks the end of an object.
pub open spec fn wf_value(v: Amf0ValueView) -> bool
    decreases v,
{
    match v {
        Amf0ValueView::Number(_) => true,
        Amf0ValueView::Boolean(_) => true,
        Amf0ValueView::Utf8String(s) => encode_utf8(s).len() <= MAX_STRING_LENGTH,
        Amf0ValueView::Object(props) => wf_props(props),
        Amf0ValueView::Null => true,
    }
}

/// `wf_value` for one property: a nonempty name that fits the length prefix,
/// and a well-formed value.
pub open spec fn wf_prop(p: Amf0PropertyView) -> bool
    decreases p,
{
    0 < encode_utf8(p.name).len() <= MAX_STRING_LENGTH && wf_value(p.value)
}

/// `wf_value` for every property of a list.
pub open spec fn wf_props(props: Seq<Amf0PropertyView>) -> bool
    decreases props,
{
    if props.len() == 0 {
        true
    } else {
        wf_prop(props[0]) && wf_props(props.drop_first())
    }
}

/// `wf_value` for every value of a list.
pub open spec fn wf_values(vs: Seq<Amf0ValueView>) -> bool
    decreases vs,
{
    if vs.len() == 0 {
        true
    } else {
        wf_value(vs[0]) && wf_values(vs.drop_first())
    }
}

/// Round trip of one value: decoding its encoding yields the value back and
/// leaves exactly the bytes that followed it.
pub proof fn lemma_decode_encode_value(v: Amf0ValueView, rest: Seq<u8>)
    requires
        wf_value(v),
    ensures
        spec_decode_value(spec_encode_value(v) + rest) == Ok::<_, Amf0DeserializationError>(
            (v, rest),
        ),
    decreases v,
{
    let b = spec_encode_value(v) + rest;
    match v {
        Amf0ValueView::Number(n) => {
            crate::utils::lemma_u64_be_round_trip(n);
            assert(b.subrange(1, 9) =~= u64_be_bytes(n));
            assert(b.skip(9) =~= rest);
        },
        Amf0ValueView::Boolean(flag) => {
            assert(b.skip(2) =~= rest);
        },
        Amf0ValueView::Utf8String(s) => {
            let text = encode_utf8(s);
            let text_len = text.len() as int;
            crate::utils::lemma_u16_be_round_trip(text.len() as u16);
            assert(b.subrange(1, 3) =~= u16_be_bytes(text.len() as u16));
            assert(b.subrange(3, 3 + text_len) =~= text);
            vstd::utf8::encode_utf8_valid_utf8(s);
            vstd::utf8::encode_utf8_decode_utf8(s);
            assert(b.skip(3 + text_len) =~= rest);
        },
        Amf0ValueView::Object(props) => {
            assert(b.skip(1) =~= spec_encode_properties(props) + (seq![
                0u8,
                0u8,
                OBJECT_END_MARKER,
            ] + rest));
            lemma_decode_encode_properties(props, rest);
        },
        Amf0ValueView::Null => {
            assert(b.skip(1) =~= rest);
        },
    }
}

/// Round trip of an object's property list, sentinel included.
#[verifier::rlimit(60)]
pub proof fn lemma_decode_encode_properties(props: Seq<Amf0PropertyView>, rest: Seq<u8>)
    requires
        wf_props(props),
    ensures
        spec_decode_properties(
            spec_encode_properties(props) + (seq![0u8, 0u8, OBJECT_END_MARKER] + rest),
        ) == Ok::<_, Amf0DeserializationError>((props, rest)),
    decreases props,
{
    let b = spec_encode_properties(props) + (seq![0u8, 0u8, OBJECT_END_MARKER] + rest);
    if props.len() == 0 {
        assert(b.subrange(0, 2) =~= u16_be_bytes(0));
        crate::utils::lemma_u16_be_round_trip(0);
        assert(b[2] == OBJECT_END_MARKER);
        assert(b.skip(3) =~= rest);
        assert(props =~= Seq::<Amf0PropertyView>::empty());
    } else {
        let p = props[0];
        let name_bytes = encode_utf8(p.name);
        let name_len = name_bytes.len() as int;
        let tail = props.drop_first();
        assert(wf_prop(p) && wf_props(tail));
        assert(0 < name_len <= MAX_STRING_LENGTH);
        let after_name = spec_encode_value(p.value) + (spec_encode_properties(tail) + (seq![
            0u8,
            0u8,
            OBJECT_END_MARKER,
        ] + rest));
        crate::utils::lemma_u16_be_round_trip(name_len as u16);
        assert(b.subrange(0, 2) =~= u16_be_bytes(name_len as u16));
        assert(be_u16_of(b.subrange(0, 2)) == name_len);
        assert(b.subrange(2, 2 + name_len) =~= name_bytes);
        vstd::utf8::encode_utf8_valid_utf8(p.name);
        vstd::utf8::encode_utf8_decode_utf8(p.name);
        assert(b.skip(2 + name_len) =~= after_name);
        let rest1 = spec_encode_properties(tail) + (seq![0u8, 0u8, OBJECT_END_MARKER] + rest);
        lemma_decode_encode_value(p.value, rest1);
        lemma_decode_value_consumes(b.skip(2 + name_len));
        lemma_decode_encode_properties(tail, rest);
        assert(spec_decode_properties(b) matches Ok((decoded, r)) && decoded =~= props && r
            =~= rest);
    }
}

/// AMF0 round trip: decoding the encoding of any well-formed value sequence
/// yields the same values, names and properties in the same order.
pub proof fn lemma_amf0_round_trip(vs: Seq<Amf0ValueView>)
    requires
        wf_values(vs),
    ensures
        spec_decode_values(spec_encode_values(vs)) == Ok::<_, Amf0DeserializationError>(vs),
    decreases vs.len(),
{
    let b = spec_encode_values(vs);
    if vs.len() == 0 {
        assert(b =~= Seq::<u8>::empty());
        assert(vs =~= Seq::<Amf0ValueView>::empty());
    } else {
        let tail = vs.drop_first();
        lemma_decode_encode_value(vs[0], spec_encode_values(tail));
        lemma_decode_value_consumes(b);
        lemma_amf0_round_trip(tail);
        assert(spec_decode_values(b) matches Ok(decoded) && decoded =~= vs);
    }
}

/// Encodes a value sequence into AMF0 bytes.  Succeeds exactly when every
/// string and property name fits the 2-byte length prefix; the bytes are then
/// the concatenation of the values' encodings.
pub fn serialize(values: &Vec<Amf0Value>) -> (r: Result<Vec<u8>, Amf0SerializationError>)
    ensures
        match r {
            Ok(bytes) => values_encodable(values_view(values@)) && bytes@ == spec_encode_values(
                values_view(values@),
            ),
            Err(e) => e == Amf0SerializationError::StringTooLong && !values_encodable(
                values_view(values@),
            ),
        },
{
    let ghost vv = values_view(values@);
    proof {
        lemma_values_view_index(values@);
        lemma_values_encodable_index(vv);
    }
    let mut bytes: Vec<u8> = Vec::new();
    let mut i: usize = 0;
    while i < values.len()
        invariant
            i <= values.len(),
            vv == values_view(values@),
            vv.len() == values@.len(),
            forall|j: int| 0 <= j < values@.len() ==> vv[j] == values@[j]@,
            values_encodable(vv) <==> (forall|j: int|
                0 <= j < vv.len() ==> value_encodable(#[trigger] vv[j])),
            forall|j: int| 0 <= j < i ==> value_encodable(#[trigger] vv[j]),
            bytes@ == spec_encode_values(vv.take(i as int)),
        decreases values.len() - i,
    {
        match serialize_value(&values[i as usize], &mut bytes) {
            Ok(_) => {},
            Err(e) => {
                return Err(e);
            },
        }
        proof {
            lemma_encode_values_push(vv.take(i as int), vv[i as int]);
            assert(vv.take(i + 1) =~= vv.take(i as int).push(vv[i as int]));
        }
        i = i + 1;
    }
    proof {
        assert(vv.take(values@.len() as int) =~= vv);
    }
    Ok(bytes)
}

/// Appends the encoding of one value, failing on an oversized string or
/// property name.  On failure the output holds an unfinished encoding and is
/// discarded by the caller.
fn serialize_value(value: &Amf0Value, bytes: &mut Vec<u8>) -> (r: Result<
    (),
    Amf0SerializationError,
>)
    ensures
        match r {
            Ok(_) => value_encodable(value@) && final(bytes)@ == old(bytes)@ + spec_encode_value(
                value@,
            ),
            Err(e) => e == Amf0SerializationError::StringTooLong && !value_encodable(value@),
        },
    decreases value,
{
    match value {
        Amf0Value::Boolean(val) => {
            serialize_bool(val, bytes);
            Ok(())
        },
        Amf0Value::Null => {
            serialize_null(bytes);
            Ok(())
        },
        Amf0Value::Number(val) => {
            serialize_number(val, bytes);
            Ok(())
        },
        Amf0Value::Utf8String(val) => serialize_string(val, bytes),
        Amf0Value::Object(val) => serialize_object(val, bytes),
    }
}

/// Appends the number marker and the 8-byte big-endian bit pattern.
fn serialize_number(value: &u64, bytes: &mut Vec<u8>)
    ensures
        final(bytes)@ == old(bytes)@ + spec_encode_value(Amf0ValueView::Number(*value)),
{
    bytes.push(NUMBER_MARKER);
    write_u64_be(bytes, *value);
    proof {
        assert(bytes@ =~= old(bytes)@ + spec_encode_value(Amf0ValueView::Number(*value)));
    }
}

/// Appends the boolean marker and one byte, 1 for true and 0 for false.
fn serialize_bool(value: &bool, bytes: &mut Vec<u8>)
    ensures
        final(bytes)@ == old(bytes)@ + spec_encode_value(Amf0ValueView::Boolean(*value)),
{
    bytes.push(BOOLEAN_MARKER);
    bytes.push(if *value {
        1
    } else {
        0
    });
    proof {
        assert(bytes@ =~= old(bytes)@ + spec_encode_value(Amf0ValueView::Boolean(*value)));
    }
}

/// Appends the string marker, the 2-byte length and the UTF-8 bytes, failing
/// when the string is longer than the length field can say.
fn serialize_string(value: &String, bytes: &mut Vec<u8>) -> (r: Result<(), Amf0SerializationError>)
    ensures
        match r {
            Ok(_) => value_encodable(Amf0ValueView::Utf8String(value@)) && final(bytes)@ == old(
                bytes,
            )@ + spec_encode_value(Amf0ValueView::Utf8String(value@)),
            Err(e) => e == Amf0SerializationError::StringTooLong && !value_encodable(
                Amf0ValueView::Utf8String(value@),
            ),
        },
{
    let text = value.as_str().as_bytes_vec();
    if text.len() > MAX_STRING_LENGTH {
        return Err(Amf0SerializationError::StringTooLong);
    }
    bytes.push(STRING_MARKER);
    write_u16_be(bytes, text.len() as u16);
    crate::utils::append_bytes(bytes, &text);
    proof {
        assert(bytes@ =~= old(bytes)@ + spec_encode_value(Amf0ValueView::Utf8String(value@)));
    }
    Ok(())
}

/// Appends the null marker.
fn serialize_null(bytes: &mut Vec<u8>)
    ensures
        final(bytes)@ == old(bytes)@ + spec_encode_value(Amf0ValueView::Null),
{
    bytes.push(NULL_MARKER);
    proof {
        assert(bytes@ =~= old(bytes)@ + spec_encode_value(Amf0ValueView::Null));
    }
}

/// Appends the object marker, every property as a length-prefixed name and a
/// value, and the end-of-object sentinel.
fn serialize_object(object: &Amf0Object, bytes: &mut Vec<u8>) -> (r: Result<
    (),
    Amf0SerializationError,
>)
    ensures
        match r {
            Ok(_) => value_encodable(Amf0ValueView::Object(object@)) && final(bytes)@ == old(
                bytes,
            )@ + spec_encode_value(Amf0ValueView::Object(object@)),
            Err(e) => e == Amf0SerializationError::StringTooLong && !value_encodable(
                Amf0ValueView::Object(object@),
            ),
        },
    decreases object,
{
    let ghost pv = object@;
    proof {
        lemma_props_view_index(object.properties@);
        lemma_props_encodable_index(pv);
    }
    bytes.push(OBJECT_MARKER);
    let mut i: usize = 0;
    while i < object.properties.len()
        invariant
            i <= object.properties.len(),
            pv == props_view(object.properties@),
            pv.len() == object.properties@.len(),
            forall|j: int| 0 <= j < pv.len() ==> pv[j] == object.properties@[j]@,
            props_encodable(pv) <==> (forall|j: int|
                0 <= j < pv.len() ==> prop_encodable(#[trigger] pv[j])),
            forall|j: int| 0 <= j < i ==> prop_encodable(#[trigger] pv[j]),
            bytes@ == old(bytes)@ + seq![OBJECT_MARKER] + spec_encode_properties(
                pv.take(i as int),
            ),
        decreases object.properties.len() - i,
    {
        let property = &object.properties[i as usize];
        let name_bytes = property.name.as_str().as_bytes_vec();
        if name_bytes.len() > MAX_STRING_LENGTH {
            return Err(Amf0SerializationError::StringTooLong);
        }
        write_u16_be(bytes, name_bytes.len() as u16);
        crate::utils::append_bytes(bytes, &name_bytes);
        match serialize_value(&property.value, bytes) {
            Ok(_) => {},
            Err(e) => {
                return Err(e);
            },
        }
        proof {
            lemma_encode_properties_push(pv.take(i as int), pv[i as int]);
            assert(pv.take(i + 1) =~= pv.take(i as int).push(pv[i as int]));
            assert(bytes@ =~= old(bytes)@ + seq![OBJECT_MARKER] + spec_encode_properties(
                pv.take(i + 1),
            ));
        }
        i = i + 1;
    }
    write_u16_be(bytes, 0);
    bytes.push(OBJECT_END_MARKER);
    proof {
        assert(pv.take(pv.len() as int) =~= pv);
        assert(u16_be_bytes(0) =~= seq![0u8, 0u8]);
        assert(bytes@ =~= old(bytes)@ + spec_encode_value(Amf0ValueView::Object(object@)));
    }
    Ok(())
}

/// Relies on `String::from_utf8`: it succeeds exactly on valid UTF-8 input,
/// and the characters of the returned string are the UTF-8 decoding of the
/// input bytes.
#[verifier::external_body]
fn bytes_to_string(bytes: Vec<u8>) -> (r: Option<String>)
    ensures
        r is Some <==> valid_utf8(bytes@),
        r matches Some(s) ==> s@ == decode_utf8(bytes@),
{
    match String::from_utf8(bytes) {
        Ok(s) => Some(s),
        Err(_) => None,
    }
}

/// Decodes a whole byte sequence as consecutive AMF0 values until the end of
/// the input, exactly as `spec_decode_values` says.
pub fn deserialize(bytes: &Vec<u8>) -> (r: Result<Vec<Amf0Value>, Amf0DeserializationError>)
    ensures
        match spec_decode_values(bytes@) {
            Ok(vs) => r matches Ok(v) && values_view(v@) == vs,
            Err(e) => r == Err::<Vec<Amf0Value>, Amf0DeserializationError>(e),
        },
{
    let mut results: Vec<Amf0Value> = Vec::new();
    let mut pos: usize = 0;
    proof {
        assert(bytes@.skip(0) =~= bytes@);
    }
    while pos < bytes.len()
        invariant
            pos <= bytes.len(),
            match spec_decode_values(bytes@.skip(pos as int)) {
                Ok(vs) => spec_decode_values(bytes@) == Ok::<_, Amf0DeserializationError>(
                    values_view(results@) + vs,
                ),
                Err(e) => spec_decode_values(bytes@) == Err::<Seq<Amf0ValueView>, _>(e),
            },
        decreases bytes.len() - pos,
    {
        let ghost suffix = bytes@.skip(pos as int);
        proof {
            lemma_decode_value_consumes(suffix);
        }
        match parse_value(bytes, pos) {
            Ok((value, new_pos)) => {
                proof {
                    assert(suffix.skip(suffix.len() - bytes@.skip(new_pos as int).len()) =~= bytes@.skip(
                        new_pos as int,
                    ));
                    lemma_values_view_push(results@, value);
                    match spec_decode_values(bytes@.skip(new_pos as int)) {
                        Ok(vs) => {
                            assert(values_view(results@) + (seq![value@] + vs) =~= values_view(
                                results@.push(value),
                            ) + vs);
                        },
                        Err(_) => {},
                    }
                }
                results.push(value);
                pos = new_pos;
            },
            Err(e) => {
                return Err(e);
            },
        }
    }
    proof {
        assert(bytes@.skip(bytes@.len() as int) =~= Seq::<u8>::empty());
        assert(values_view(results@) + Seq::<Amf0ValueView>::empty() =~= values_view(results@));
    }
    Ok(results)
}

/// Decodes the first value at `pos`, returning it with the position of the
/// byte after it.
fn parse_value(bytes: &Vec<u8>, pos: usize) -> (r: Result<
    (Amf0Value, usize),
    Amf0DeserializationError,
>)
    requires
        pos <= bytes.len(),
    ensures
        match spec_decode_value(bytes@.skip(pos as int)) {
            Ok((vv, rest)) => r matches Ok((v, new_pos)) && v@ == vv && pos < new_pos
                <= bytes.len() && bytes@.skip(new_pos as int) == rest,
            Err(e) => r == Err::<(Amf0Value, usize), Amf0DeserializationError>(e),
        },
    decreases bytes.len() - pos, 1int,
{
    let ghost suffix = bytes@.skip(pos as int);
    let available = bytes.len() - pos;
    if available == 0 {
        return Err(Amf0DeserializationError::UnexpectedEof);
    }
    let marker = bytes[pos];
    if marker == NUMBER_MARKER {
        if available < 9 {
            return Err(Amf0DeserializationError::UnexpectedEof);
        }
        let raw = read_u64_be(bytes, pos + 1);
        proof {
            assert(bytes@.subrange(pos + 1, pos + 9) =~= suffix.subrange(1, 9));
            assert(bytes@.skip(pos + 9) =~= suffix.skip(9));
        }
        Ok((Amf0Value::Number(raw), pos + 9))
    } else if marker == BOOLEAN_MARKER {
        if available < 2 {
            return Err(Amf0DeserializationError::UnexpectedEof);
        }
        let flag = bytes[pos + 1] != 0;
        proof {
            assert(bytes@.skip(pos + 2) =~= suffix.skip(2));
        }
        Ok((Amf0Value::Boolean(flag), pos + 2))
    } else if marker == STRING_MARKER {
        if available < 3 {
            return Err(Amf0DeserializationError::UnexpectedEof);
        }
        let length = read_u16_be(bytes, pos + 1) as usize;
        proof {
            assert(bytes@.subrange(pos + 1, pos + 3) =~= suffix.subrange(1, 3));
        }
        if available - 3 < length {
            return Err(Amf0DeserializationError::UnexpectedEof);
        }
        let mut text: Vec<u8> = Vec::new();
        let mut i: usize = 0;
        while i < length
            invariant
                i <= length,
                pos + 3 + length <= bytes.len(),
                text@ == bytes@.subrange(pos + 3, pos + 3 + i),
            decreases length - i,
        {
            text.push(bytes[pos + 3 + i]);
            i = i + 1;
            proof {
                assert(text@ =~= bytes@.subrange(pos + 3, pos + 3 + i));
            }
        }
        proof {
            assert(text@ =~= suffix.subrange(3, 3 + length));
            assert(bytes@.skip(pos + 3 + length) =~= suffix.skip(3 + length));
        }
        match bytes_to_string(text) {
            Some(s) => Ok((Amf0Value::Utf8String(s), pos + 3 + length)),
            None => Err(Amf0DeserializationError::InvalidUtf8),
        }
    } else if marker == OBJECT_MARKER {
        proof {
            assert(bytes@.skip(pos + 1) =~= suffix.skip(1));
        }
        match parse_properties(bytes, pos + 1) {
            Ok((properties, new_pos)) => Ok(
                (Amf0Value::Object(Amf0Object { properties }), new_pos),
            ),
            Err(e) => Err(e),
        }
    } else if marker == NULL_MARKER {
        proof {
            assert(bytes@.skip(pos + 1) =~= suffix.skip(1));
        }
        Ok((Amf0Value::Null, pos + 1))
    } else {
        Err(Amf0DeserializationError::UnknownMarker(marker))
    }
}

/// Decodes an object's properties at `pos` up to and including the
/// end-of-object sentinel.
fn parse_properties(bytes: &Vec<u8>, pos: usize) -> (r: Result<
    (Vec<Amf0Property>, usize),
    Amf0DeserializationError,
>)
    requires
        pos <= bytes.len(),
    ensures
        match spec_decode_properties(bytes@.skip(pos as int)) {
            Ok((pv, rest)) => r matches Ok((props, new_pos)) && props_view(props@) == pv && pos
                < new_pos <= bytes.len() && bytes@.skip(new_pos as int) == rest,
            Err(e) => r == Err::<(Vec<Amf0Property>, usize), Amf0DeserializationError>(e),
        },
    decreases bytes.len() - pos, 0int,
{
    let ghost suffix = bytes@.skip(pos as int);
    let available = bytes.len() - pos;
    if available < 2 {
        return Err(Amf0DeserializationError::UnexpectedEof);
    }
    let name_len = read_u16_be(bytes, pos) as usize;
    proof {
        assert(bytes@.subrange(pos as int, pos + 2) =~= suffix.subrange(0, 2));
    }
    if name_len == 0 {
        if available < 3 {
            return Err(Amf0DeserializationError::UnexpectedEof);
        }
        if bytes[pos + 2] == OBJECT_END_MARKER {
            proof {
                assert(bytes@.skip(pos + 3) =~= suffix.skip(3));
                assert(props_view(Seq::<Amf0Property>::empty()) =~= Seq::<
                    Amf0PropertyView,
                >::empty());
            }
            Ok((Vec::new(), pos + 3))
        } else {
            Err(Amf0DeserializationError::UnexpectedEmptyObjectPropertyName)
        }
    } else {
        if available - 2 < name_len {
            return Err(Amf0DeserializationError::UnexpectedEof);
        }
        let mut name_bytes: Vec<u8> = Vec::new();
        let mut i: usize = 0;
        while i < name_len
            invariant
                i <= name_len,
                pos + 2 + name_len <= bytes.len(),
                name_bytes@ == bytes@.subrange(pos + 2, pos + 2 + i),
            decreases name_len - i,
        {
            name_bytes.push(bytes[pos + 2 + i]);
            i = i + 1;
            proof {
                assert(name_bytes@ =~= bytes@.subrange(pos + 2, pos + 2 + i));
            }
        }
        proof {
            assert(name_bytes@ =~= suffix.subrange(2, 2 + name_len));
            assert(bytes@.skip(pos + 2 + name_len) =~= suffix.skip(2 + name_len));
        }
        let name = match bytes_to_string(name_bytes) {
            Some(s) => s,
            None => {
                return Err(Amf0DeserializationError::InvalidUtf8);
            },
        };
        proof {
            lemma_decode_value_consumes(suffix.skip(2 + name_len));
        }
        match parse_value(bytes, pos + 2 + name_len) {
            Err(e) => Err(e),
            Ok((value, value_end)) => {
                proof {
                    let rest = bytes@.skip(value_end as int);
                    assert(suffix.skip(2 + name_len).skip(
                        suffix.skip(2 + name_len).len() - rest.len(),
                    ) =~= rest);
                }
                match parse_properties(bytes, value_end) {
                    Err(e) => Err(e),
                    Ok((mut properties, new_pos)) => {
                        let ghost tail_props = properties@;
                        properties.insert(0, Amf0Property { name, value });
                        proof {
                            assert(properties@.drop_first() =~= tail_props);
                        }
                        Ok((properties, new_pos))
                    },
                }
            },
        }
    }
}

} // verus!
