//! The row codec: typed values to and from a compact byte record.
//!
//! An integer takes four bytes, most significant first, in two's complement.
//! A boolean takes one byte, zero for false. A text takes a four-byte length,
//! most significant first, and then that many bytes of UTF-8.

use byteorder::{BigEndian, ByteOrder, ReadBytesExt, WriteBytesExt};
use crate::storage::storage_manager::{attribute_views, AttributeName, Attributes, AttributesView};
use crate::storage::tuple::TupleRecord;
use crate::storage::types::AttributeType;
use vstd::prelude::*;
use vstd::slice::slice_subrange;
use vstd::string::StringExecFns;
use vstd::utf8::{decode_utf8, encode_utf8, valid_utf8};

verus! {

/// Why a record could not be read against a schema.
#[derive(Debug, Eq, PartialEq)]
pub enum SerdeError {
    /// The record ends inside the named attribute.
    EOF(String),
    /// The bytes of the named text attribute are not UTF-8.
    InvalidText(String),
    /// The record goes on after its last attribute.
    TrailingBytes,
}

pub enum SerdeErrorView {
    EOF(Seq<char>),
    InvalidText(Seq<char>),
    TrailingBytes,
}

impl View for SerdeError {
    type V = SerdeErrorView;

    open spec fn view(&self) -> SerdeErrorView {
        match self {
            SerdeError::EOF(name) => SerdeErrorView::EOF(name@),
            SerdeError::InvalidText(name) => SerdeErrorView::InvalidText(name@),
            SerdeError::TrailingBytes => SerdeErrorView::TrailingBytes,
        }
    }
}

/// The message of a codec error.
pub open spec fn serde_message(e: SerdeErrorView) -> Seq<char> {
    match e {
        SerdeErrorView::EOF(name) => "unable to deserialize "@ + name,
        SerdeErrorView::InvalidText(name) => "invalid text in "@ + name,
        SerdeErrorView::TrailingBytes => "unread bytes after the last attribute"@,
    }
}

impl SerdeError {
    /// The message of this error.
    pub fn to_string(&self) -> (r: String)
        ensures
            r@ == serde_message(self@),
    {
        match self {
            SerdeError::EOF(name) => String::from_str("unable to deserialize ").concat(
                name.as_str(),
            ),
            SerdeError::InvalidText(name) => String::from_str("invalid text in ").concat(
                name.as_str(),
            ),
            SerdeError::TrailingBytes => String::from_str("unread bytes after the last attribute"),
        }
    }
}

/// One value of a row.
#[derive(Debug, Eq, PartialEq, PartialOrd, Ord)]
pub enum StorageTupleValue {
    Integer(i32),
    Boolean(bool),
    String(String),
}

pub enum ValueView {
    Integer(i32),
    Boolean(bool),
    String(Seq<char>),
}

impl View for StorageTupleValue {
    type V = ValueView;

    open spec fn view(&self) -> ValueView {
        match self {
            StorageTupleValue::Integer(n) => ValueView::Integer(*n),
            StorageTupleValue::Boolean(b) => ValueView::Boolean(*b),
            StorageTupleValue::String(s) => ValueView::String(s@),
        }
    }
}

impl Clone for StorageTupleValue {
    fn clone(&self) -> (r: Self)
        ensures
            r@ == self@,
    {
        match self {
            StorageTupleValue::Integer(n) => StorageTupleValue::Integer(*n),
            StorageTupleValue::Boolean(b) => StorageTupleValue::Boolean(*b),
            StorageTupleValue::String(s) => StorageTupleValue::String(s.clone()),
        }
    }
}

/// The views of a run of values, in order.
pub open spec fn value_views(values: Seq<StorageTupleValue>) -> Seq<ValueView> {
    values.map_values(|v: StorageTupleValue| v@)
}

/// Named values as a mathematical value.
pub type NamedValuesView = Seq<(Seq<char>, ValueView)>;

/// The views of a run of named values, in order.
pub open spec fn named_value_views(
    values: Seq<(AttributeName, StorageTupleValue)>,
) -> NamedValuesView {
    values.map_values(|v: (AttributeName, StorageTupleValue)| (v.0@, v.1@))
}

/// The type of a value.
pub open spec fn type_of(v: ValueView) -> AttributeType {
    match v {
        ValueView::Integer(_) => AttributeType::Integer,
        ValueView::Boolean(_) => AttributeType::Boolean,
        ValueView::String(_) => AttributeType::Text,
    }
}

/// The types of a run of values, in order.
pub open spec fn types_of(values: Seq<ValueView>) -> Seq<AttributeType> {
    values.map_values(|v: ValueView| type_of(v))
}

/// The types of a run of columns, in order.
pub open spec fn column_types(attributes: AttributesView) -> Seq<AttributeType> {
    attributes.map_values(|a: (Seq<char>, AttributeType)| a.1)
}

/// The four bytes of `n`, most significant first.
pub open spec fn be_bytes(n: u32) -> Seq<u8> {
    seq![
        (n / 0x1000000) as u8,
        ((n / 0x10000) % 0x100) as u8,
        ((n / 0x100) % 0x100) as u8,
        (n % 0x100) as u8,
    ]
}

/// The number whose four bytes, most significant first, open `bytes`.
pub open spec fn be_value(bytes: Seq<u8>) -> u32 {
    (bytes[0] * 0x1000000 + bytes[1] * 0x10000 + bytes[2] * 0x100 + bytes[3]) as u32
}

/// The unsigned number with the same 32 bits as `n` in two's complement.
pub open spec fn to_unsigned(n: i32) -> u32 {
    if n >= 0 {
        n as u32
    } else {
        (n + 0x1_0000_0000) as u32
    }
}

/// The signed number with the same 32 bits as `n` in two's complement.
pub open spec fn to_signed(n: u32) -> i32 {
    if n < 0x8000_0000 {
        n as i32
    } else {
        (n - 0x1_0000_0000) as i32
    }
}

/// Whether the codec can write `v`: the UTF-8 form of a text must have a
/// length that fits the four-byte prefix.
pub open spec fn encodable(v: ValueView) -> bool {
    match v {
        ValueView::String(s) => encode_utf8(s).len() <= u32::MAX,
        _ => true,
    }
}

/// The bytes of one value.
pub open spec fn encode_value(v: ValueView) -> Seq<u8> {
    match v {
        ValueView::Integer(n) => be_bytes(to_unsigned(n)),
        ValueView::Boolean(b) => seq![if b { 1u8 } else { 0u8 }],
        ValueView::String(s) => be_bytes(encode_utf8(s).len() as u32) + encode_utf8(s),
    }
}

/// The bytes of a row: those of its values, in order.
pub open spec fn encode_values(values: Seq<ValueView>) -> Seq<u8>
    decreases values.len(),
{
    if values.len() == 0 {
        Seq::empty()
    } else {
        encode_value(values[0]) + encode_values(values.skip(1))
    }
}

/// What reading one value at the start of some bytes gives.
pub enum Read {
    /// The value, and the number of bytes it took.
    Value(ValueView, nat),
    /// The bytes end inside the value.
    Premature,
    /// The bytes of a text are not UTF-8.
    Invalid,
}

/// Reads one value of type `ty` at the start of `bytes`.
pub open spec fn read_value(bytes: Seq<u8>, ty: AttributeType) -> Read {
    match ty {
        AttributeType::Integer => if bytes.len() < 4 {
            Read::Premature
        } else {
            Read::Value(ValueView::Integer(to_signed(be_value(bytes))), 4)
        },
        AttributeType::Boolean => if bytes.len() < 1 {
            Read::Premature
        } else {
            Read::Value(ValueView::Boolean(bytes[0] != 0), 1)
        },
        AttributeType::Text => if bytes.len() < 4 || bytes.len() < 4 + be_value(bytes) {
            Read::Premature
        } else {
            let body = bytes.subrange(4, 4 + be_value(bytes));
            if valid_utf8(body) {
                Read::Value(ValueView::String(decode_utf8(body)), (4 + be_value(bytes)) as nat)
            } else {
                Read::Invalid
            }
        },
    }
}

/// What reading a run of values at the start of some bytes gives.
pub enum Decoded {
    /// The values, and the number of bytes they took.
    Values(Seq<ValueView>, nat),
    /// The bytes end inside the value with this index.
    Premature(nat),
    /// The bytes of the text with this index are not UTF-8.
    Invalid(nat),
}

/// `rest`, the outcome of reading further values, after one value `v` of `n`
/// bytes was read before them.
pub open spec fn after_value(v: ValueView, n: nat, rest: Decoded) -> Decoded {
    match rest {
        Decoded::Values(values, m) => Decoded::Values(seq![v] + values, n + m),
        Decoded::Premature(i) => Decoded::Premature(i + 1),
        Decoded::Invalid(i) => Decoded::Invalid(i + 1),
    }
}

/// Reads values of the types `types`, in order, at the start of `bytes`.
pub open spec fn decode_prefix(bytes: Seq<u8>, types: Seq<AttributeType>) -> Decoded
    decreases types.len(),
{
    if types.len() == 0 {
        Decoded::Values(Seq::empty(), 0)
    } else {
        match read_value(bytes, types[0]) {
            Read::Premature => Decoded::Premature(0),
            Read::Invalid => Decoded::Invalid(0),
            Read::Value(v, n) => after_value(v, n, decode_prefix(bytes.skip(n as int), types.skip(1))),
        }
    }
}

/// `values` under the names of `schema`, position by position.
pub open spec fn named(schema: AttributesView, values: Seq<ValueView>) -> NamedValuesView {
    Seq::new(values.len(), |i: int| (schema[i].0, values[i]))
}

/// Reads a whole record against `schema`: every attribute in order, and no
/// byte left over.
pub open spec fn decode_record(bytes: Seq<u8>, schema: AttributesView) -> Result<
    NamedValuesView,
    SerdeErrorView,
> {
    match decode_prefix(bytes, column_types(schema)) {
        Decoded::Values(values, n) => if n == bytes.len() {
            Ok(named(schema, values))
        } else {
            Err(SerdeErrorView::TrailingBytes)
        },
        Decoded::Premature(i) => Err(SerdeErrorView::EOF(schema[i as int].0)),
        Decoded::Invalid(i) => Err(SerdeErrorView::InvalidText(schema[i as int].0)),
    }
}

/// `WriteBytesExt::write_u32::<BigEndian>` on a `Vec<u8>`: appends the four
/// bytes of `n`, most significant first. Writing to a `Vec` cannot fail.
#[verifier::external_body]
fn write_u32(buf: &mut Vec<u8>, n: u32)
    ensures
        final(buf)@ == old(buf)@ + be_bytes(n),
{
    let _ = buf.write_u32::<BigEndian>(n);
}

/// `WriteBytesExt::write_i32::<BigEndian>` on a `Vec<u8>`: appends the four
/// bytes of `n` in two's complement, most significant first.
#[verifier::external_body]
fn write_i32(buf: &mut Vec<u8>, n: i32)
    ensures
        final(buf)@ == old(buf)@ + be_bytes(to_unsigned(n)),
{
    let _ = buf.write_i32::<BigEndian>(n);
}

/// `WriteBytesExt::write_u8` on a `Vec<u8>`: appends the byte `n`.
#[verifier::external_body]
fn write_u8(buf: &mut Vec<u8>, n: u8)
    ensures
        final(buf)@ == old(buf)@.push(n),
{
    let _ = buf.write_u8(n);
}

/// `ByteOrder::read_u32` of `BigEndian`: the number whose bytes, most
/// significant first, are the first four of `bytes`. It panics on fewer.
#[verifier::external_body]
fn read_u32(bytes: &[u8]) -> (n: u32)
    requires
        bytes@.len() >= 4,
    ensures
        n == be_value(bytes@),
{
    BigEndian::read_u32(bytes)
}

/// `ByteOrder::read_i32` of `BigEndian`: the number whose bytes in two's
/// complement, most significant first, are the first four of `bytes`. It
/// panics on fewer.
#[verifier::external_body]
fn read_i32(bytes: &[u8]) -> (n: i32)
    requires
        bytes@.len() >= 4,
    ensures
        n == to_signed(be_value(bytes@)),
{
    BigEndian::read_i32(bytes)
}

/// `ReadBytesExt::read_u8` on a slice: its first byte. It fails on an empty
/// slice, which is left out.
#[verifier::external_body]
fn read_u8(bytes: &[u8]) -> (n: u8)
    requires
        bytes@.len() >= 1,
    ensures
        n == bytes@[0],
{
    let mut reader = bytes;
    reader.read_u8().unwrap()
}

/// The declaration of the error of `String::from_utf8`.
#[verifier::external_type_specification]
#[verifier::external_body]
pub struct ExFromUtf8Error(std::string::FromUtf8Error);

/// `String::from_utf8`: the text that `vec` holds in UTF-8, and an error
/// exactly where `vec` is not UTF-8.
pub assume_specification[ std::string::String::from_utf8 ](vec: Vec<u8>) -> (r: Result<
    std::string::String,
    std::string::FromUtf8Error,
>)
    ensures
        r is Ok <==> valid_utf8(vec@),
        r is Ok ==> r.unwrap()@ == decode_utf8(vec@),
;

/// Four bytes, read back, give the number they were written from.
pub proof fn lemma_be_round_trip(n: u32)
    ensures
        be_bytes(n).len() == 4,
        be_value(be_bytes(n)) == n,
{
}

/// A signed number survives the way through its unsigned form.
pub proof fn lemma_signed_round_trip(n: i32)
    ensures
        to_signed(to_unsigned(n)) == n,
{
}

/// The bytes of rows written one after the other.
pub proof fn lemma_encode_values_push(values: Seq<ValueView>, v: ValueView)
    ensures
        encode_values(values.push(v)) == encode_values(values) + encode_value(v),
    decreases values.len(),
{
    if values.len() == 0 {
        assert(values.push(v).skip(1) =~= Seq::<ValueView>::empty());
        assert(encode_values(values.push(v).skip(1)) =~= Seq::<u8>::empty());
        assert(encode_values(values) =~= Seq::<u8>::empty());
        assert(encode_values(values.push(v)) =~= encode_values(values) + encode_value(v));
    } else {
        lemma_encode_values_push(values.skip(1), v);
        assert(values.push(v).skip(1) =~= values.skip(1).push(v));
        assert(encode_values(values.push(v)) =~= encode_values(values) + encode_value(v));
    }
}

/// Whether the codec can write `value`.
pub fn can_encode(value: &StorageTupleValue) -> (r: bool)
    ensures
        r == encodable(value@),
{
    match value {
        StorageTupleValue::String(s) => s.as_str().as_bytes().len() <= 0xffff_ffff,
        _ => true,
    }
}

/// Writes `values` as one record.
pub fn serialize_tuple(values: Vec<StorageTupleValue>) -> (r: TupleRecord)
    requires
        forall|i: int| 0 <= i < values.len() ==> encodable(#[trigger] values[i]@),
    ensures
        r@ == encode_values(value_views(values@)),
{
    let mut tuple: Vec<u8> = Vec::new();
    let mut i: usize = 0;
    while i < values.len()
        invariant
            i <= values.len(),
            forall|i: int| 0 <= i < values.len() ==> encodable(#[trigger] values[i]@),
            tuple@ == encode_values(value_views(values@).take(i as int)),
        decreases values.len() - i,
    {
        proof {
            lemma_encode_values_push(value_views(values@).take(i as int), values[i as int]@);
            assert(value_views(values@).take(i as int).push(values[i as int]@) =~= value_views(
                values@,
            ).take(i + 1));
        }
        match &values[i] {
            StorageTupleValue::Integer(value) => {
                write_i32(&mut tuple, *value);
            },
            StorageTupleValue::Boolean(value) => {
                write_u8(
                    &mut tuple,
                    if *value {
                        0x1
                    } else {
                        0x0
                    },
                );
                assert(tuple@ =~= encode_values(value_views(values@).take(i as int))
                    + encode_value(values[i as int]@));
            },
            StorageTupleValue::String(value) => {
                let bytes = value.as_str().as_bytes();
                assert(encodable(values[i as int]@));
                write_u32(&mut tuple, bytes.len() as u32);
                tuple.extend_from_slice(bytes);
                assert(tuple@ =~= encode_values(value_views(values@).take(i as int))
                    + encode_value(values[i as int]@));
            },
        }
        i += 1;
    }
    assert(value_views(values@).take(values.len() as int) == value_views(values@));
    TupleRecord(tuple)
}

impl TupleRecord {
    fn read_integer(tuple: &[u8]) -> (r: Option<(usize, StorageTupleValue)>)
        ensures
            match read_value(tuple@, AttributeType::Integer) {
                Read::Value(v, n) => r is Some && r.unwrap().0 == n && r.unwrap().1@ == v,
                _ => r is None,
            },
    {
        if tuple.len() < 4 {
            return None;
        }
        Some((4, StorageTupleValue::Integer(read_i32(tuple))))
    }

    fn read_boolean(tuple: &[u8]) -> (r: Option<(usize, StorageTupleValue)>)
        ensures
            match read_value(tuple@, AttributeType::Boolean) {
                Read::Value(v, n) => r is Some && r.unwrap().0 == n && r.unwrap().1@ == v,
                _ => r is None,
            },
    {
        if tuple.len() < 1 {
            return None;
        }
        Some((1, StorageTupleValue::Boolean(read_u8(tuple) != 0x0)))
    }

    fn read_text(tuple: &[u8]) -> (r: Result<(usize, StorageTupleValue), bool>)
        ensures
            match read_value(tuple@, AttributeType::Text) {
                Read::Value(v, n) => r is Ok && r.unwrap().0 == n && r.unwrap().1@ == v,
                Read::Premature => r == Err::<(usize, StorageTupleValue), bool>(true),
                Read::Invalid => r == Err::<(usize, StorageTupleValue), bool>(false),
            },
    {
        if tuple.len() < 4 {
            return Err(true);
        }
        let text_size = read_u32(tuple) as usize;
        if tuple.len() - 4 < text_size {
            return Err(true);
        }
        let end = 4 + text_size;
        let text = vstd::slice::slice_to_vec(slice_subrange(tuple, 4, end));
        match String::from_utf8(text) {
            Ok(value) => Ok((end, StorageTupleValue::String(value))),
            Err(_) => Err(false),
        }
    }
}

/// `rest`, the outcome of reading further values, after the values `before`
/// of `n` bytes in all were read before them.
pub open spec fn after_values(before: Seq<ValueView>, n: nat, rest: Decoded) -> Decoded {
    match rest {
        Decoded::Values(values, m) => Decoded::Values(before + values, n + m),
        Decoded::Premature(i) => Decoded::Premature(before.len() + i),
        Decoded::Invalid(i) => Decoded::Invalid(before.len() + i),
    }
}

proof fn lemma_after_values_step(
    before: Seq<ValueView>,
    n: nat,
    v: ValueView,
    m: nat,
    rest: Decoded,
)
    ensures
        after_values(before, n, after_value(v, m, rest)) == after_values(
            before.push(v),
            n + m,
            rest,
        ),
{
    match rest {
        Decoded::Values(values, k) => {
            assert(before + (seq![v] + values) =~= before.push(v) + values);
        },
        _ => {},
    }
}

/// Reads the attributes of `schema`, in order, at the start of `bytes`. On
/// failure it gives the index of the attribute that could not be read, and
/// whether the bytes ended inside it.
fn decode(bytes: &Vec<u8>, schema: &Vec<(AttributeName, AttributeType)>) -> (r: Result<
    (Vec<(AttributeName, StorageTupleValue)>, usize),
    (usize, bool),
>)
    ensures
        match decode_prefix(bytes@, column_types(attribute_views(schema@))) {
            Decoded::Values(values, n) => r is Ok && r.unwrap().1 == n && n <= bytes.len()
                && named_value_views(r.unwrap().0@) == named(
                attribute_views(schema@),
                values,
            ) && values.len() == schema.len(),
            Decoded::Premature(i) => r == Err::<
                (Vec<(AttributeName, StorageTupleValue)>, usize),
                (usize, bool),
            >((i as usize, true)) && i < schema.len(),
            Decoded::Invalid(i) => r == Err::<
                (Vec<(AttributeName, StorageTupleValue)>, usize),
                (usize, bool),
            >((i as usize, false)) && i < schema.len(),
        },
{
    let ghost types = column_types(attribute_views(schema@));
    let ghost mut before: Seq<ValueView> = Seq::empty();
    let mut values: Vec<(AttributeName, StorageTupleValue)> = Vec::new();
    let mut index: usize = 0;
    let mut i: usize = 0;
    proof {
        assert(bytes@.skip(0) == bytes@);
        assert(types.skip(0) == types);
        match decode_prefix(bytes@, types) {
            Decoded::Values(vs, m) => {
                assert(before + vs =~= vs);
            },
            _ => {},
        }
    }
    while i < schema.len()
        invariant
            types == column_types(attribute_views(schema@)),
            types.len() == schema.len(),
            i <= schema.len(),
            index <= bytes.len(),
            values.len() == i,
            before.len() == i,
            forall|j: int| 0 <= j < i ==> (#[trigger] values[j]).0@ == schema[j].0@,
            forall|j: int| 0 <= j < i ==> values[j].1@ == #[trigger] before[j],
            decode_prefix(bytes@, types) == after_values(
                before,
                index as nat,
                decode_prefix(bytes@.skip(index as int), types.skip(i as int)),
            ),
        decreases schema.len() - i,
    {
        let rest = slice_subrange(bytes.as_slice(), index, bytes.len());
        assert(rest@ == bytes@.skip(index as int));
        assert(types.skip(i as int)[0] == schema[i as int].1);
        let read = match schema[i].1 {
            AttributeType::Integer => match TupleRecord::read_integer(rest) {
                Some(done) => Ok(done),
                None => Err(true),
            },
            AttributeType::Boolean => match TupleRecord::read_boolean(rest) {
                Some(done) => Ok(done),
                None => Err(true),
            },
            AttributeType::Text => TupleRecord::read_text(rest),
        };
        match read {
            Ok((read_bytes, value)) => {
                proof {
                    lemma_after_values_step(
                        before,
                        index as nat,
                        value@,
                        read_bytes as nat,
                        decode_prefix(
                            bytes@.skip(index as int).skip(read_bytes as int),
                            types.skip(i as int).skip(1),
                        ),
                    );
                    assert(bytes@.skip(index as int).skip(read_bytes as int) == bytes@.skip(
                        index + read_bytes,
                    ));
                    assert(types.skip(i as int).skip(1) == types.skip(i + 1));
                    before = before.push(value@);
                }
                values.push((schema[i].0.clone(), value));
                index += read_bytes;
                i += 1;
            },
            Err(premature) => {
                return Err((i, premature));
            },
        }
    }
    proof {
        assert(before + Seq::<ValueView>::empty() =~= before);
        assert(named_value_views(values@) =~= named(
            attribute_views(schema@),
            before,
        ));
    }
    Ok((values, index))
}

/// Reads values of the types `schema`, in order, from the start of `tuple`.
/// The record must hold them; what follows them is not looked at.
pub fn deserialize_tuple(tuple: TupleRecord, schema: Vec<AttributeType>) -> (r: Vec<
    StorageTupleValue,
>)
    requires
        decode_prefix(tuple@, schema@) is Values,
    ensures
        decode_prefix(tuple@, schema@) == Decoded::Values(
            value_views(r@),
            decode_prefix(tuple@, schema@)->Values_1,
        ),
{
    let mut columns: Vec<(AttributeName, AttributeType)> = Vec::new();
    let mut i: usize = 0;
    while i < schema.len()
        invariant
            i <= schema.len(),
            columns.len() == i,
            forall|j: int| 0 <= j < i ==> columns[j].1 == schema[j],
        decreases schema.len() - i,
    {
        columns.push((AttributeName(String::new()), schema[i]));
        i += 1;
    }
    assert(column_types(attribute_views(columns@)) =~= schema@);
    match decode(&tuple.0, &columns) {
        Ok((named_values, _)) => {
            let mut values: Vec<StorageTupleValue> = Vec::new();
            let mut k: usize = 0;
            while k < named_values.len()
                invariant
                    k <= named_values.len(),
                    values.len() == k,
                    forall|j: int| 0 <= j < k ==> values[j]@ == named_values[j].1@,
                decreases named_values.len() - k,
            {
                values.push(named_values[k].1.clone());
                k += 1;
            }
            proof {
                let decoded = decode_prefix(tuple@, schema@)->Values_0;
                let by_name = named(
                    attribute_views(columns@),
                    decoded,
                );
                assert(named_value_views(named_values@).len() == by_name.len());
                assert forall|j: int| 0 <= j < decoded.len() implies value_views(values@)[j]
                    == decoded[j] by {
                    assert(named_value_views(named_values@)[j] == by_name[j]);
                }
                assert(value_views(values@) =~= decoded);
            }
            values
        },
        Err(_) => Vec::new(),
    }
}

impl TupleRecord {
    /// Reads the record against `schema`: the value of every attribute under
    /// its name, in the order of the schema.
    pub fn to_values(&self, schema: &Attributes) -> (r: Result<
        Vec<(AttributeName, StorageTupleValue)>,
        SerdeError,
    >)
        ensures
            match decode_record(self@, schema@) {
                Ok(values) => r is Ok && named_value_views(r.unwrap()@) == values,
                Err(e) => r is Err && r.unwrap_err()@ == e,
            },
    {
        match decode(&self.0, &schema.0) {
            Ok((values, index)) => {
                if index == self.0.len() {
                    Ok(values)
                } else {
                    Err(SerdeError::TrailingBytes)
                }
            },
            Err((i, premature)) => {
                if premature {
                    Err(SerdeError::EOF(schema.0[i].0.0.clone()))
                } else {
                    Err(SerdeError::InvalidText(schema.0[i].0.0.clone()))
                }
            },
        }
    }
}

/// The values of a run of named values, in order.
pub open spec fn values_of(named_values: NamedValuesView) -> Seq<ValueView> {
    named_values.map_values(|v: (Seq<char>, ValueView)| v.1)
}

/// A value that was written is read back as it was, whatever follows it.
pub proof fn lemma_read_written_value(v: ValueView, tail: Seq<u8>)
    requires
        encodable(v),
    ensures
        read_value(encode_value(v) + tail, type_of(v)) == Read::Value(v, encode_value(v).len()),
{
    let bytes = encode_value(v) + tail;
    match v {
        ValueView::Integer(n) => {
            lemma_be_round_trip(to_unsigned(n));
            lemma_signed_round_trip(n);
            assert(be_value(bytes) == be_value(be_bytes(to_unsigned(n))));
        },
        ValueView::Boolean(b) => {},
        ValueView::String(s) => {
            let body = encode_utf8(s);
            lemma_be_round_trip(body.len() as u32);
            assert(be_value(bytes) == be_value(be_bytes(body.len() as u32)));
            assert(bytes.subrange(4, 4 + body.len() as int) =~= body);
            vstd::utf8::encode_utf8_valid_utf8(s);
            vstd::utf8::encode_utf8_decode_utf8(s);
        },
    }
}

/// Values that were written are read back as they were, whatever follows them.
pub proof fn lemma_decode_encoded(values: Seq<ValueView>, tail: Seq<u8>)
    requires
        forall|i: int| 0 <= i < values.len() ==> encodable(#[trigger] values[i]),
    ensures
        decode_prefix(encode_values(values) + tail, types_of(values)) == Decoded::Values(
            values,
            encode_values(values).len(),
        ),
    decreases values.len(),
{
    let types = types_of(values);
    let bytes = encode_values(values) + tail;
    if values.len() == 0 {
        assert(values =~= Seq::empty());
    } else {
        let head = encode_value(values[0]);
        let rest = encode_values(values.skip(1));
        assert(bytes =~= head + (rest + tail));
        lemma_read_written_value(values[0], rest + tail);
        assert(bytes.skip(head.len() as int) =~= rest + tail);
        assert(types.skip(1) =~= types_of(values.skip(1)));
        lemma_decode_encoded(values.skip(1), tail);
        assert(seq![values[0]] + values.skip(1) =~= values);
    }
}

/// Writing a row and reading it against a schema of the same types gives
/// the values that were written, each under its attribute's name.
pub proof fn lemma_encode_then_decode(values: Seq<ValueView>, schema: AttributesView)
    requires
        forall|i: int| 0 <= i < values.len() ==> encodable(#[trigger] values[i]),
        column_types(schema) == types_of(values),
    ensures
        decode_record(encode_values(values), schema) == Ok::<NamedValuesView, SerdeErrorView>(
            named(schema, values),
        ),
        values_of(named(schema, values)) == values,
{
    lemma_decode_encoded(values, Seq::empty());
    assert(encode_values(values) + Seq::<u8>::empty() =~= encode_values(values));
    assert(values_of(named(schema, values)) =~= values);
}

/// A record that the codec wrote from a schema's types is, read against that
/// schema and written again, the same record.
pub proof fn lemma_decode_then_encode(
    bytes: Seq<u8>,
    schema: AttributesView,
    written: Seq<ValueView>,
)
    requires
        forall|i: int| 0 <= i < written.len() ==> encodable(#[trigger] written[i]),
        column_types(schema) == types_of(written),
        bytes == encode_values(written),
    ensures
        decode_record(bytes, schema) is Ok,
        encode_values(values_of(decode_record(bytes, schema)->Ok_0)) == bytes,
{
    lemma_encode_then_decode(written, schema);
}

/// A value that was read can be written.
pub proof fn lemma_read_encodable(bytes: Seq<u8>, ty: AttributeType)
    ensures
        read_value(bytes, ty) is Value ==> encodable(read_value(bytes, ty)->Value_0),
{
    if ty is Text && read_value(bytes, ty) is Value {
        let body = bytes.subrange(4, 4 + be_value(bytes));
        vstd::utf8::decode_utf8_encode_utf8(body);
    }
}

/// Values that were read can be written.
pub proof fn lemma_prefix_encodable(bytes: Seq<u8>, types: Seq<AttributeType>)
    ensures
        decode_prefix(bytes, types) is Values ==> decode_prefix(bytes, types)->Values_0.len()
            == types.len() && forall|i: int|
            0 <= i < types.len() ==> encodable(#[trigger] decode_prefix(bytes, types)->Values_0[i]),
    decreases types.len(),
{
    if types.len() > 0 {
        lemma_read_encodable(bytes, types[0]);
        match read_value(bytes, types[0]) {
            Read::Value(v, n) => {
                lemma_prefix_encodable(bytes.skip(n as int), types.skip(1));
            },
            _ => {},
        }
    }
}

/// The values of a record that was read can be written.
pub proof fn lemma_decoded_encodable(bytes: Seq<u8>, schema: AttributesView)
    ensures
        decode_record(bytes, schema) is Ok ==> forall|i: int|
            0 <= i < decode_record(bytes, schema)->Ok_0.len() ==> encodable(
                (#[trigger] decode_record(bytes, schema)->Ok_0[i]).1,
            ),
{
    lemma_prefix_encodable(bytes, column_types(schema));
}

} // verus!
