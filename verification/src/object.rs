//! A model of the PDF object values that the library's logic reads.
use vstd::prelude::*;

verus! {

/// A PDF object.
#[derive(Debug)]
pub enum Object {
    /// `null`
    Null,
    /// `true` / `false`
    Boolean(bool),
    /// An integer number.
    Integer(i64),
    /// A real number, by its written form (such as `-12.5`).
    Real(String),
    /// A literal string, by its text.
    Str(String),
    /// A name such as `/DeviceCMYK`, without the slash.
    Name(String),
    /// An array.
    Array(Vec<Object>),
    /// A dictionary, its entries in order.
    Dictionary(Vec<(String, Object)>),
    /// An indirect reference: object number and generation.
    Reference(u32, u16),
    /// A stream: its dictionary, entries in order, and its bytes.
    Stream(Vec<(String, Object)>, Vec<u8>),
}

/// The mathematical value of an object.
pub enum ObjValue {
    Null,
    Boolean(bool),
    Integer(int),
    Real(Seq<char>),
    Str(Seq<char>),
    Name(Seq<char>),
    Array(Seq<ObjValue>),
    Dictionary(Seq<(Seq<char>, ObjValue)>),
    Reference(nat, nat),
    Stream(Seq<(Seq<char>, ObjValue)>, Seq<u8>),
}

impl Object {
    /// The value of this object.
    pub open spec fn value(self) -> ObjValue
        decreases self,
    {
        match self {
            Object::Null => ObjValue::Null,
            Object::Boolean(b) => ObjValue::Boolean(b),
            Object::Integer(n) => ObjValue::Integer(n as int),
            Object::Real(s) => ObjValue::Real(s@),
            Object::Str(s) => ObjValue::Str(s@),
            Object::Name(s) => ObjValue::Name(s@),
            Object::Array(v) => ObjValue::Array(
                Seq::new(
                    v.len() as nat,
                    |i: int|
                        if 0 <= i < v.len() {
                            v@[i].value()
                        } else {
                            ObjValue::Null
                        },
                ),
            ),
            Object::Dictionary(v) => ObjValue::Dictionary(
                Seq::new(
                    v.len() as nat,
                    |i: int|
                        if 0 <= i < v.len() {
                            (v@[i].0@, v@[i].1.value())
                        } else {
                            (Seq::empty(), ObjValue::Null)
                        },
                ),
            ),
            Object::Reference(n, g) => ObjValue::Reference(n as nat, g as nat),
            Object::Stream(d, data) => ObjValue::Stream(
                Seq::new(
                    d.len() as nat,
                    |i: int|
                        if 0 <= i < d.len() {
                            (d@[i].0@, d@[i].1.value())
                        } else {
                            (Seq::empty(), ObjValue::Null)
                        },
                ),
                data@,
            ),
        }
    }
}

/// The values of a sequence of objects.
pub open spec fn values(v: Seq<Object>) -> Seq<ObjValue> {
    Seq::new(v.len(), |i: int| v[i].value())
}

/// The values of dictionary entries: each key's text with its value.
pub open spec fn entry_values(v: Seq<(String, Object)>) -> Seq<(Seq<char>, ObjValue)> {
    Seq::new(v.len(), |i: int| (v[i].0@, v[i].1.value()))
}

/// The value of a dictionary object is the sequence of its entries' values.
pub proof fn lemma_dict_value(v: Vec<(String, Object)>)
    ensures
        Object::Dictionary(v).value() == ObjValue::Dictionary(entry_values(v@)),
{
    let a = Object::Dictionary(v).value();
    assert(a->Dictionary_0 =~= entry_values(v@));
}

/// The value of a stream object is its entries' values and its bytes.
pub proof fn lemma_stream_value(v: Vec<(String, Object)>, data: Vec<u8>)
    ensures
        Object::Stream(v, data).value() == ObjValue::Stream(entry_values(v@), data@),
{
    let a = Object::Stream(v, data).value();
    assert(a->Stream_0 =~= entry_values(v@));
}

/// The value of an array object is the array of its elements' values.
pub proof fn lemma_array_value(v: Vec<Object>)
    ensures
        Object::Array(v).value() == ObjValue::Array(values(v@)),
{
    let a = Object::Array(v).value();
    assert(a is Array);
    assert(a->Array_0 =~= values(v@));
}

} // verus!
