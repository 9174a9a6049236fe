//! The typed-value decoder: one record payload into one of the typed
//! variants, dispatched on the header's base type code.
//!
//! A record's payload holds `repeats` values in a row, each spanning
//! `basesize` bytes; a numeric value holds `basesize / width` elements of its
//! element width. Values are decoded one at a time so that a complex record
//! can consult the type descriptor currently in scope.

use vstd::prelude::*;

use crate::bytes::{be16, be32, be64, be_i16, be_i32, be_i64, be_i8, be_u16, be_u32, be_u64, signed};
use crate::errors::GpmfError;
use crate::header::{spec_baselen, Header};
use vstd::utf8::{encode_utf8, valid_utf8};

verus! {

// Base type codes, each the ASCII value of the character that names it in the
// format.
/// `b`: signed byte.
pub const BT_SINT8: u8 = 98;

/// `B`: unsigned byte.
pub const BT_UINT8: u8 = 66;

/// `s`: signed 16-bit integer.
pub const BT_SINT16: u8 = 115;

/// `S`: unsigned 16-bit integer.
pub const BT_UINT16: u8 = 83;

/// `l`: signed 32-bit integer.
pub const BT_SINT32: u8 = 108;

/// `L`: unsigned 32-bit integer.
pub const BT_UINT32: u8 = 76;

/// `f`: 32-bit IEEE 754 float, kept as raw bits.
pub const BT_FLOAT32: u8 = 102;

/// `d`: 64-bit IEEE 754 float, kept as raw bits.
pub const BT_FLOAT64: u8 = 100;

/// `j`: signed 64-bit integer.
pub const BT_SINT64: u8 = 106;

/// `J`: unsigned 64-bit integer.
pub const BT_UINT64: u8 = 74;

/// `q`: 32-bit fixed-point Q number, 16-bit integer and 16-bit fraction.
pub const BT_QINT32: u8 = 113;

/// `Q`: 64-bit fixed-point Q number, 32-bit integer and 32-bit fraction.
pub const BT_QINT64: u8 = 81;

/// `c`: single-byte extended-ASCII string.
pub const BT_ASCII: u8 = 99;

/// `F`: four-character identifier as a string.
pub const BT_FOURCC: u8 = 70;

/// `u`: UTF-8 string, validated.
pub const BT_UTF8: u8 = 117;

/// `U`: sixteen-byte textual datetime.
pub const BT_DATETIME: u8 = 85;

/// `G`: sixteen-byte identifier.
pub const BT_UUID: u8 = 71;

/// `#`: compressed payload, passed through undecoded.
pub const BT_COMPRESSED: u8 = 35;

/// `?`: complex value laid out by the type descriptor in scope.
pub const BT_COMPLEX: u8 = 63;

/// Zero: nested container, the payload holds further records.
pub const BT_NESTED: u8 = 0;

/// One decoded value.
///
/// Strings other than the `Utf8` variant map each payload byte straight to
/// the code point with the same number, because the format emits single-byte
/// extended-ASCII that is not always valid UTF-8. Float payloads are kept as
/// their raw big-endian bits.
#[derive(Debug)]
pub enum Value {
    /// Single-byte extended-ASCII string, embedded zero bytes stripped.
    Ascii(String),
    /// Four-character identifier as a string.
    FourCC(String),
    /// Sixteen-byte identifier.
    Uuid(Vec<u8>),
    /// Validated UTF-8 string.
    Utf8(String),
    /// Textual datetime of the form `yymmddhhmmss.sss`.
    Datetime(String),
    Sint8(Vec<i8>),
    Uint8(Vec<u8>),
    Sint16(Vec<i16>),
    Uint16(Vec<u16>),
    Sint32(Vec<i32>),
    Uint32(Vec<u32>),
    /// 32-bit IEEE 754 floats as raw bits.
    Float32(Vec<u32>),
    /// Fixed-point Q numbers: 16-bit integer part, 16-bit fraction.
    Qint32(Vec<u32>),
    Sint64(Vec<i64>),
    Uint64(Vec<u64>),
    /// 64-bit IEEE 754 floats as raw bits.
    Float64(Vec<u64>),
    /// Fixed-point Q numbers: 32-bit integer part, 32-bit fraction.
    Qint64(Vec<u64>),
    /// Ordered components of a complex record, one per descriptor character.
    /// Complex values never nest further complex values.
    Complex(Vec<Value>),
    /// Compressed payload, not decoded.
    Compressed(Vec<u8>),
    /// Marker for a nested container; the tree builder holds the children.
    Nested,
    /// A record whose payload length is zero.
    Empty,
    /// A value that could not be read.
    Invalid,
}

/// Element width in bytes of a simple base type, by which a payload is split
/// into elements.
pub open spec fn spec_width(basetype: u8) -> int {
    if basetype == BT_SINT16 || basetype == BT_UINT16 {
        2
    } else if basetype == BT_SINT32 || basetype == BT_UINT32 || basetype == BT_FLOAT32 || basetype
        == BT_QINT32 {
        4
    } else if basetype == BT_SINT64 || basetype == BT_UINT64 || basetype == BT_FLOAT64 || basetype
        == BT_QINT64 {
        8
    } else {
        1
    }
}

/// Whether the base type code is one of the simple (non-complex,
/// non-container) kinds the decoder understands.
pub open spec fn known_simple(basetype: u8) -> bool {
    ||| basetype == BT_SINT8
    ||| basetype == BT_UINT8
    ||| basetype == BT_SINT16
    ||| basetype == BT_UINT16
    ||| basetype == BT_SINT32
    ||| basetype == BT_UINT32
    ||| basetype == BT_FLOAT32
    ||| basetype == BT_FLOAT64
    ||| basetype == BT_SINT64
    ||| basetype == BT_UINT64
    ||| basetype == BT_QINT32
    ||| basetype == BT_QINT64
    ||| basetype == BT_ASCII
    ||| basetype == BT_FOURCC
    ||| basetype == BT_UTF8
    ||| basetype == BT_DATETIME
    ||| basetype == BT_UUID
    ||| basetype == BT_COMPRESSED
}

// The elements a numeric payload decodes to, one spec function per width and
// signedness.
pub open spec fn sint8_elems(data: Seq<u8>, pos: int, count: int) -> Seq<i8> {
    Seq::new(count as nat, |i: int| signed(data[pos + i] as int, 0x80) as i8)
}

pub open spec fn uint16_elems(data: Seq<u8>, pos: int, count: int) -> Seq<u16> {
    Seq::new(count as nat, |i: int| be16(data, pos + 2 * i) as u16)
}

pub open spec fn sint16_elems(data: Seq<u8>, pos: int, count: int) -> Seq<i16> {
    Seq::new(count as nat, |i: int| signed(be16(data, pos + 2 * i), 0x8000) as i16)
}

pub open spec fn uint32_elems(data: Seq<u8>, pos: int, count: int) -> Seq<u32> {
    Seq::new(count as nat, |i: int| be32(data, pos + 4 * i) as u32)
}

pub open spec fn sint32_elems(data: Seq<u8>, pos: int, count: int) -> Seq<i32> {
    Seq::new(count as nat, |i: int| signed(be32(data, pos + 4 * i), 0x8000_0000) as i32)
}

pub open spec fn uint64_elems(data: Seq<u8>, pos: int, count: int) -> Seq<u64> {
    Seq::new(count as nat, |i: int| be64(data, pos + 8 * i) as u64)
}

pub open spec fn sint64_elems(data: Seq<u8>, pos: int, count: int) -> Seq<i64> {
    Seq::new(count as nat, |i: int| signed(be64(data, pos + 8 * i), 0x8000_0000_0000_0000) as i64)
}

/// The characters of a single-byte extended-ASCII payload: zero bytes are
/// stripped, every other byte maps to the code point with its number.
pub open spec fn iso_chars(bytes: Seq<u8>) -> Seq<char>
    decreases bytes.len(),
{
    if bytes.len() == 0 {
        Seq::empty()
    } else {
        let rest = iso_chars(bytes.drop_last());
        if bytes.last() == 0 {
            rest
        } else {
            rest.push(bytes.last() as char)
        }
    }
}

/// What decoding one simple value at `pos` must yield when it succeeds.
pub open spec fn spec_simple_decoded(
    v: Value,
    data: Seq<u8>,
    pos: int,
    basetype: u8,
    basesize: u16,
) -> bool {
    let payload = data.subrange(pos, pos + basesize);
    if basetype == BT_NESTED {
        v == Value::Nested
    } else if basetype == BT_SINT8 {
        v matches Value::Sint8(x) && x@ == sint8_elems(data, pos, basesize as int)
    } else if basetype == BT_UINT8 {
        v matches Value::Uint8(x) && x@ == payload
    } else if basetype == BT_SINT16 {
        v matches Value::Sint16(x) && x@ == sint16_elems(data, pos, basesize as int / 2)
    } else if basetype == BT_UINT16 {
        v matches Value::Uint16(x) && x@ == uint16_elems(data, pos, basesize as int / 2)
    } else if basetype == BT_SINT32 {
        v matches Value::Sint32(x) && x@ == sint32_elems(data, pos, basesize as int / 4)
    } else if basetype == BT_UINT32 {
        v matches Value::Uint32(x) && x@ == uint32_elems(data, pos, basesize as int / 4)
    } else if basetype == BT_FLOAT32 {
        v matches Value::Float32(x) && x@ == uint32_elems(data, pos, basesize as int / 4)
    } else if basetype == BT_QINT32 {
        v matches Value::Qint32(x) && x@ == uint32_elems(data, pos, basesize as int / 4)
    } else if basetype == BT_SINT64 {
        v matches Value::Sint64(x) && x@ == sint64_elems(data, pos, basesize as int / 8)
    } else if basetype == BT_UINT64 {
        v matches Value::Uint64(x) && x@ == uint64_elems(data, pos, basesize as int / 8)
    } else if basetype == BT_FLOAT64 {
        v matches Value::Float64(x) && x@ == uint64_elems(data, pos, basesize as int / 8)
    } else if basetype == BT_QINT64 {
        v matches Value::Qint64(x) && x@ == uint64_elems(data, pos, basesize as int / 8)
    } else if basetype == BT_ASCII {
        v matches Value::Ascii(s) && s@ == iso_chars(payload)
    } else if basetype == BT_FOURCC {
        v matches Value::FourCC(s) && s@ == iso_chars(payload)
    } else if basetype == BT_DATETIME {
        v matches Value::Datetime(s) && s@ == iso_chars(payload)
    } else if basetype == BT_UTF8 {
        v matches Value::Utf8(s) && encode_utf8(s@) == payload
    } else if basetype == BT_UUID {
        v matches Value::Uuid(x) && x@ == payload
    } else if basetype == BT_COMPRESSED {
        v matches Value::Compressed(x) && x@ == payload
    } else {
        false
    }
}

/// Why decoding one simple value at `pos` fails, or `None` if it succeeds:
/// a complex code with no descriptor to consult, an unknown code, a payload
/// length the element width does not divide, a payload past the window end,
/// or invalid declared UTF-8.
pub open spec fn spec_simple_error(data: Seq<u8>, pos: int, basetype: u8, basesize: u16) -> Option<
    GpmfError,
> {
    if basetype == BT_NESTED {
        None
    } else if basetype == BT_COMPLEX {
        Some(GpmfError::MissingComplexType)
    } else if !known_simple(basetype) {
        Some(GpmfError::UnknownBaseType(basetype))
    } else if basesize as int % spec_width(basetype) != 0 {
        Some(GpmfError::SizeMismatch { basesize, width: spec_width(basetype) as u8 })
    } else if pos + basesize > data.len() {
        Some(GpmfError::ReadMismatch { got: (data.len() - pos) as u64, expected: basesize as u64 })
    } else if basetype == BT_UTF8 && !valid_utf8(data.subrange(pos, pos + basesize)) {
        Some(GpmfError::Utf8Error)
    } else {
        None
    }
}

/// Bytes one simple value occupies: none for a container marker, the whole
/// declared unit size otherwise.
pub open spec fn spec_simple_consumed(basetype: u8, basesize: u16) -> int {
    if basetype == BT_NESTED {
        0
    } else {
        basesize as int
    }
}

/// Total bytes the components of a complex record occupy, each sized by its
/// descriptor character's canonical width.
pub open spec fn complex_len(desc: Seq<u8>) -> int
    decreases desc.len(),
{
    if desc.len() == 0 {
        0
    } else {
        complex_len(desc.drop_last()) + spec_simple_consumed(
            desc.last(),
            spec_baselen(desc.last()) as u16,
        )
    }
}

/// The components of a complex record: one value per descriptor character,
/// each decoded at the running offset with its canonical width.
pub open spec fn complex_slots_decoded(
    vals: Seq<Value>,
    data: Seq<u8>,
    pos: int,
    desc: Seq<u8>,
) -> bool {
    &&& vals.len() == desc.len()
    &&& forall|i: int|
        0 <= i < desc.len() ==> spec_simple_decoded(
            #[trigger] vals[i],
            data,
            pos + complex_len(desc.take(i)),
            desc[i],
            spec_baselen(desc[i]) as u16,
        )
}

/// Why decoding the components of a complex record fails, or `None`: the
/// first failing component decides.
pub open spec fn spec_complex_error(data: Seq<u8>, pos: int, desc: Seq<u8>) -> Option<GpmfError>
    decreases desc.len(),
{
    if desc.len() == 0 {
        None
    } else {
        let w = spec_baselen(desc[0]) as u16;
        match spec_simple_error(data, pos, desc[0], w) {
            Some(e) => Some(e),
            None => spec_complex_error(
                data,
                pos + spec_simple_consumed(desc[0], w),
                desc.skip(1),
            ),
        }
    }
}

/// The view of an optional descriptor.
pub open spec fn opt_bytes(o: Option<&Vec<u8>>) -> Option<Seq<u8>> {
    match o {
        Some(v) => Some(v@),
        None => None,
    }
}

/// Why decoding a value fails, or `None` if it succeeds.
pub open spec fn spec_value_error(
    data: Seq<u8>,
    pos: int,
    basetype: u8,
    basesize: u16,
    desc: Option<Seq<u8>>,
) -> Option<GpmfError> {
    if basetype == BT_COMPLEX {
        match desc {
            None => Some(GpmfError::MissingComplexType),
            Some(d) => spec_complex_error(data, pos, d),
        }
    } else {
        spec_simple_error(data, pos, basetype, basesize)
    }
}

/// What a successfully decoded value must be.
pub open spec fn spec_value_decoded(
    v: Value,
    data: Seq<u8>,
    pos: int,
    basetype: u8,
    basesize: u16,
    desc: Option<Seq<u8>>,
) -> bool {
    if basetype == BT_COMPLEX {
        match desc {
            None => false,
            Some(d) => v matches Value::Complex(vals) && complex_slots_decoded(vals@, data, pos, d),
        }
    } else {
        spec_simple_decoded(v, data, pos, basetype, basesize)
    }
}

/// Bytes a successfully decoded value consumes.
pub open spec fn spec_value_consumed(basetype: u8, basesize: u16, desc: Option<Seq<u8>>) -> int {
    if basetype == BT_COMPLEX {
        match desc {
            None => 0,
            Some(d) => complex_len(d),
        }
    } else {
        spec_simple_consumed(basetype, basesize)
    }
}

/// Relies on `String::from_utf8`: it succeeds exactly on valid UTF-8 input,
/// and then returns the string whose UTF-8 encoding is that input.
#[verifier::external_body]
fn string_from_utf8(bytes: Vec<u8>) -> (r: Option<String>)
    ensures
        r is Some <==> valid_utf8(bytes@),
        r matches Some(s) ==> encode_utf8(s@) == bytes@,
{
    String::from_utf8(bytes).ok()
}

/// The payload bytes themselves.
fn read_bytes(data: &[u8], pos: usize, count: usize) -> (r: Vec<u8>)
    requires
        pos + count <= data@.len(),
    ensures
        r@ == data@.subrange(pos as int, pos as int + count),
{
    let n = data.len();
    proof {
        assert(pos + count <= n);
    }
    let s = &data[pos..pos + count];
    vstd::slice::slice_to_vec(s)
}

fn read_sint8s(data: &[u8], pos: usize, count: usize) -> (r: Vec<i8>)
    requires
        pos + count <= data@.len(),
    ensures
        r@ == sint8_elems(data@, pos as int, count as int),
{
    let n = data.len();
    let mut out: Vec<i8> = Vec::new();
    let mut i: usize = 0;
    while i < count
        invariant
            pos + count <= n == data@.len(),
            i <= count,
            out@.len() == i,
            forall|j: int| 0 <= j < i ==> out@[j] == sint8_elems(data@, pos as int, count as int)[j],
        decreases count - i,
    {
        out.push(be_i8(data, pos + i));
        i = i + 1;
    }
    proof {
        assert(out@ =~= sint8_elems(data@, pos as int, count as int));
    }
    out
}

fn read_uint16s(data: &[u8], pos: usize, count: usize) -> (r: Vec<u16>)
    requires
        pos + 2 * count <= data@.len(),
    ensures
        r@ == uint16_elems(data@, pos as int, count as int),
{
    let n = data.len();
    let mut out: Vec<u16> = Vec::new();
    let mut i: usize = 0;
    while i < count
        invariant
            pos + 2 * count <= n == data@.len(),
            i <= count,
            out@.len() == i,
            forall|j: int|
                0 <= j < i ==> out@[j] == uint16_elems(data@, pos as int, count as int)[j],
        decreases count - i,
    {
        out.push(be_u16(data, pos + 2 * i));
        i = i + 1;
    }
    proof {
        assert(out@ =~= uint16_elems(data@, pos as int, count as int));
    }
    out
}

fn read_sint16s(data: &[u8], pos: usize, count: usize) -> (r: Vec<i16>)
    requires
        pos + 2 * count <= data@.len(),
    ensures
        r@ == sint16_elems(data@, pos as int, count as int),
{
    let n = data.len();
    let mut out: Vec<i16> = Vec::new();
    let mut i: usize = 0;
    while i < count
        invariant
            pos + 2 * count <= n == data@.len(),
            i <= count,
            out@.len() == i,
            forall|j: int|
                0 <= j < i ==> out@[j] == sint16_elems(data@, pos as int, count as int)[j],
        decreases count - i,
    {
        out.push(be_i16(data, pos + 2 * i));
        i = i + 1;
    }
    proof {
        assert(out@ =~= sint16_elems(data@, pos as int, count as int));
    }
    out
}

fn read_uint32s(data: &[u8], pos: usize, count: usize) -> (r: Vec<u32>)
    requires
        pos + 4 * count <= data@.len(),
    ensures
        r@ == uint32_elems(data@, pos as int, count as int),
{
    let n = data.len();
    let mut out: Vec<u32> = Vec::new();
    let mut i: usize = 0;
    while i < count
        invariant
            pos + 4 * count <= n == data@.len(),
            i <= count,
            out@.len() == i,
            forall|j: int|
                0 <= j < i ==> out@[j] == uint32_elems(data@, pos as int, count as int)[j],
        decreases count - i,
    {
        out.push(be_u32(data, pos + 4 * i));
        i = i + 1;
    }
    proof {
        assert(out@ =~= uint32_elems(data@, pos as int, count as int));
    }
    out
}

fn read_sint32s(data: &[u8], pos: usize, count: usize) -> (r: Vec<i32>)
    requires
        pos + 4 * count <= data@.len(),
    ensures
        r@ == sint32_elems(data@, pos as int, count as int),
{
    let n = data.len();
    let mut out: Vec<i32> = Vec::new();
    let mut i: usize = 0;
    while i < count
        invariant
            pos + 4 * count <= n == data@.len(),
            i <= count,
            out@.len() == i,
            forall|j: int|
                0 <= j < i ==> out@[j] == sint32_elems(data@, pos as int, count as int)[j],
        decreases count - i,
    {
        out.push(be_i32(data, pos + 4 * i));
        i = i + 1;
    }
    proof {
        assert(out@ =~= sint32_elems(data@, pos as int, count as int));
    }
    out
}

fn read_uint64s(data: &[u8], pos: usize, count: usize) -> (r: Vec<u64>)
    requires
        pos + 8 * count <= data@.len(),
    ensures
        r@ == uint64_elems(data@, pos as int, count as int),
{
    let n = data.len();
    let mut out: Vec<u64> = Vec::new();
    let mut i: usize = 0;
    while i < count
        invariant
            pos + 8 * count <= n == data@.len(),
            i <= count,
            out@.len() == i,
            forall|j: int|
                0 <= j < i ==> out@[j] == uint64_elems(data@, pos as int, count as int)[j],
        decreases count - i,
    {
        out.push(be_u64(data, pos + 8 * i));
        i = i + 1;
    }
    proof {
        assert(out@ =~= uint64_elems(data@, pos as int, count as int));
    }
    out
}

fn read_sint64s(data: &[u8], pos: usize, count: usize) -> (r: Vec<i64>)
    requires
        pos + 8 * count <= data@.len(),
    ensures
        r@ == sint64_elems(data@, pos as int, count as int),
{
    let n = data.len();
    let mut out: Vec<i64> = Vec::new();
    let mut i: usize = 0;
    while i < count
        invariant
            pos + 8 * count <= n == data@.len(),
            i <= count,
            out@.len() == i,
            forall|j: int|
                0 <= j < i ==> out@[j] == sint64_elems(data@, pos as int, count as int)[j],
        decreases count - i,
    {
        out.push(be_i64(data, pos + 8 * i));
        i = i + 1;
    }
    proof {
        assert(out@ =~= sint64_elems(data@, pos as int, count as int));
    }
    out
}

/// A single-byte extended-ASCII payload as a string: zero bytes stripped,
/// every other byte mapped to its code point.
fn read_iso_string(data: &[u8], pos: usize, count: usize) -> (r: String)
    requires
        pos + count <= data@.len(),
    ensures
        r@ == iso_chars(data@.subrange(pos as int, pos as int + count)),
{
    let n = data.len();
    let mut s = String::new();
    let mut i: usize = 0;
    while i < count
        invariant
            pos + count <= n == data@.len(),
            i <= count,
            s@ == iso_chars(data@.subrange(pos as int, pos as int + i)),
        decreases count - i,
    {
        let b = data[pos + i];
        proof {
            let whole = data@.subrange(pos as int, pos as int + i + 1);
            assert(whole.drop_last() =~= data@.subrange(pos as int, pos as int + i));
            assert(whole.last() == data@[pos as int + i]);
        }
        if b != 0 {
            crate::chars::push_char(&mut s, b as char);
        }
        i = i + 1;
    }
    s
}

impl Value {
    /// Decode one simple (non-complex) value at `pos`.
    fn decode_simple(data: &[u8], pos: usize, basetype: u8, basesize: u16) -> (r: Result<
        (Value, usize),
        GpmfError,
    >)
        requires
            pos <= data@.len(),
        ensures
            match spec_simple_error(data@, pos as int, basetype, basesize) {
                Some(e) => r == Err::<(Value, usize), GpmfError>(e),
                None => {
                    &&& r is Ok
                    &&& spec_simple_decoded(r->Ok_0.0, data@, pos as int, basetype, basesize)
                    &&& r->Ok_0.1 == pos + spec_simple_consumed(basetype, basesize)
                },
            },
    {
        let n = data.len();
        if basetype == BT_NESTED {
            return Ok((Value::Nested, pos));
        }
        if basetype == BT_COMPLEX {
            return Err(GpmfError::MissingComplexType);
        }
        let width: u16 = if basetype == BT_SINT16 || basetype == BT_UINT16 {
            2
        } else if basetype == BT_SINT32 || basetype == BT_UINT32 || basetype == BT_FLOAT32
            || basetype == BT_QINT32 {
            4
        } else if basetype == BT_SINT64 || basetype == BT_UINT64 || basetype == BT_FLOAT64
            || basetype == BT_QINT64 {
            8
        } else {
            1
        };
        let known = basetype == BT_SINT8 || basetype == BT_UINT8 || basetype == BT_SINT16
            || basetype == BT_UINT16 || basetype == BT_SINT32 || basetype == BT_UINT32 || basetype
            == BT_FLOAT32 || basetype == BT_FLOAT64 || basetype == BT_SINT64 || basetype
            == BT_UINT64 || basetype == BT_QINT32 || basetype == BT_QINT64 || basetype == BT_ASCII
            || basetype == BT_FOURCC || basetype == BT_UTF8 || basetype == BT_DATETIME || basetype
            == BT_UUID || basetype == BT_COMPRESSED;
        if !known {
            return Err(GpmfError::UnknownBaseType(basetype));
        }
        if basesize % width != 0 {
            return Err(GpmfError::SizeMismatch { basesize, width: width as u8 });
        }
        if n - pos < basesize as usize {
            return Err(
                GpmfError::ReadMismatch { got: (n - pos) as u64, expected: basesize as u64 },
            );
        }
        let count = (basesize / width) as usize;
        let end = pos + basesize as usize;
        let v = if basetype == BT_SINT8 {
            Value::Sint8(read_sint8s(data, pos, count))
        } else if basetype == BT_UINT8 {
            Value::Uint8(read_bytes(data, pos, count))
        } else if basetype == BT_SINT16 {
            Value::Sint16(read_sint16s(data, pos, count))
        } else if basetype == BT_UINT16 {
            Value::Uint16(read_uint16s(data, pos, count))
        } else if basetype == BT_SINT32 {
            Value::Sint32(read_sint32s(data, pos, count))
        } else if basetype == BT_UINT32 {
            Value::Uint32(read_uint32s(data, pos, count))
        } else if basetype == BT_FLOAT32 {
            Value::Float32(read_uint32s(data, pos, count))
        } else if basetype == BT_QINT32 {
            Value::Qint32(read_uint32s(data, pos, count))
        } else if basetype == BT_SINT64 {
            Value::Sint64(read_sint64s(data, pos, count))
        } else if basetype == BT_UINT64 {
            Value::Uint64(read_uint64s(data, pos, count))
        } else if basetype == BT_FLOAT64 {
            Value::Float64(read_uint64s(data, pos, count))
        } else if basetype == BT_QINT64 {
            Value::Qint64(read_uint64s(data, pos, count))
        } else if basetype == BT_ASCII {
            Value::Ascii(read_iso_string(data, pos, count))
        } else if basetype == BT_FOURCC {
            Value::FourCC(read_iso_string(data, pos, count))
        } else if basetype == BT_DATETIME {
            Value::Datetime(read_iso_string(data, pos, count))
        } else if basetype == BT_UTF8 {
            let bytes = read_bytes(data, pos, count);
            match string_from_utf8(bytes) {
                Some(s) => Value::Utf8(s),
                None => {
                    return Err(GpmfError::Utf8Error);
                },
            }
        } else if basetype == BT_UUID {
            Value::Uuid(read_bytes(data, pos, count))
        } else {
            Value::Compressed(read_bytes(data, pos, count))
        };
        Ok((v, end))
    }

    /// Decode one value at `pos`, described by the header and, for a complex
    /// record, by the type descriptor in scope.
    ///
    /// Returns the value with the position just past the bytes it consumed.
    /// Where the element width does not divide the declared unit size, the
    /// two ways of counting elements disagree and the decoder reports
    /// `SizeMismatch` rather than silently trusting one of them.
    pub fn new(data: &[u8], pos: usize, header: &Header, complextype: Option<&Vec<u8>>) -> (r:
        Result<(Value, usize), GpmfError>)
        requires
            pos <= data@.len(),
        ensures
            match spec_value_error(
                data@,
                pos as int,
                header.basetype,
                header.basesize,
                opt_bytes(complextype),
            ) {
                Some(e) => r == Err::<(Value, usize), GpmfError>(e),
                None => {
                    &&& r is Ok
                    &&& spec_value_decoded(
                        r->Ok_0.0,
                        data@,
                        pos as int,
                        header.basetype,
                        header.basesize,
                        opt_bytes(complextype),
                    )
                    &&& r->Ok_0.1 == pos + spec_value_consumed(
                        header.basetype,
                        header.basesize,
                        opt_bytes(complextype),
                    )
                },
            },
    {
        if header.basetype != BT_COMPLEX {
            return Self::decode_simple(data, pos, header.basetype, header.basesize);
        }
        let desc = match complextype {
            Some(d) => d,
            None => {
                return Err(GpmfError::MissingComplexType);
            },
        };
        let mut vals: Vec<Value> = Vec::new();
        let mut cur: usize = pos;
        let mut i: usize = 0;
        let m = desc.len();
        proof {
            assert(desc@.skip(0) =~= desc@);
            assert(desc@.take(0) =~= Seq::<u8>::empty());
        }
        while i < m
            invariant
                header.basetype == BT_COMPLEX,
                opt_bytes(complextype) == Some(desc@),
                m == desc@.len(),
                i <= m,
                pos <= cur <= data@.len(),
                cur == pos + complex_len(desc@.take(i as int)),
                vals@.len() == i,
                complex_slots_decoded(vals@, data@, pos as int, desc@.take(i as int)),
                spec_complex_error(data@, pos as int, desc@) == spec_complex_error(
                    data@,
                    cur as int,
                    desc@.skip(i as int),
                ),
            decreases m - i,
        {
            let t = desc[i];
            let w = Header::baselen(&t) as u16;
            proof {
                assert(desc@.skip(i as int).len() > 0);
                assert(desc@.skip(i as int)[0] == desc@[i as int]);
            }
            match Self::decode_simple(data, cur, t, w) {
                Ok((v, next)) => {
                    vals.push(v);
                    proof {
                        let d1 = desc@.take(i as int + 1);
                        assert(d1.drop_last() =~= desc@.take(i as int));
                        assert(d1.last() == desc@[i as int]);
                        assert(desc@.skip(i as int).skip(1) =~= desc@.skip(i as int + 1));
                        assert forall|j: int| 0 <= j < i as int + 1 implies spec_simple_decoded(
                            #[trigger] vals@[j],
                            data@,
                            pos as int + complex_len(d1.take(j)),
                            d1[j],
                            spec_baselen(d1[j]) as u16,
                        ) by {
                            assert(d1.take(j) =~= desc@.take(i as int).take(j));
                            if j < i as int {
                                assert(spec_simple_decoded(
                                    vals@[j],
                                    data@,
                                    pos as int + complex_len(desc@.take(i as int).take(j)),
                                    desc@.take(i as int)[j],
                                    spec_baselen(desc@.take(i as int)[j]) as u16,
                                ));
                            } else {
                                assert(d1.take(j) =~= desc@.take(i as int));
                            }
                        }
                        assert(complex_slots_decoded(vals@, data@, pos as int, d1));
                    }
                    cur = next;
                    i = i + 1;
                },
                Err(e) => {
                    proof {
                        assert(spec_complex_error(data@, cur as int, desc@.skip(i as int))
                            == Some(e));
                    }
                    return Err(e);
                },
            }
        }
        proof {
            assert(desc@.take(m as int) =~= desc@);
            assert(desc@.skip(m as int).len() == 0);
        }
        Ok((Value::Complex(vals), cur))
    }
}


/// Front unfolding of `complex_len`: the first component's bytes plus the
/// rest's.
pub proof fn lemma_complex_len_front(desc: Seq<u8>)
    requires
        desc.len() > 0,
    ensures
        complex_len(desc) == spec_simple_consumed(desc[0], spec_baselen(desc[0]) as u16)
            + complex_len(desc.skip(1)),
    decreases desc.len(),
{
    reveal_with_fuel(complex_len, 3);
    if desc.len() == 1 {
        assert(desc.skip(1).len() == 0);
        assert(desc.drop_last().len() == 0);
        assert(desc.last() == desc[0]);
    } else {
        lemma_complex_len_front(desc.drop_last());
        assert(desc.skip(1).drop_last() =~= desc.drop_last().skip(1));
        assert(desc.drop_last()[0] == desc[0]);
        assert(desc.skip(1).last() == desc.last());
        assert(desc.skip(1).len() > 0);
        assert(complex_len(desc.skip(1)) == complex_len(desc.skip(1).drop_last())
            + spec_simple_consumed(
                desc.skip(1).last(),
                spec_baselen(desc.skip(1).last()) as u16,
            ));
        assert(complex_len(desc) == complex_len(desc.drop_last()) + spec_simple_consumed(
            desc.last(),
            spec_baselen(desc.last()) as u16,
        ));
    }
}

pub proof fn lemma_complex_len_nonneg(desc: Seq<u8>)
    ensures
        complex_len(desc) >= 0,
    decreases desc.len(),
{
    if desc.len() > 0 {
        lemma_complex_len_nonneg(desc.drop_last());
    }
}

/// A complex record that decodes without error lies within the data.
pub proof fn lemma_complex_ok_bound(data: Seq<u8>, pos: int, desc: Seq<u8>)
    requires
        0 <= pos <= data.len(),
        spec_complex_error(data, pos, desc) is None,
    ensures
        pos + complex_len(desc) <= data.len(),
    decreases desc.len(),
{
    if desc.len() > 0 {
        let w = spec_baselen(desc[0]) as u16;
        let c = spec_simple_consumed(desc[0], w);
        lemma_complex_ok_bound(data, pos + c, desc.skip(1));
        lemma_complex_len_front(desc);
    }
}

/// The string a value holds, if it is one of the string kinds.
pub open spec fn spec_string_of(v: &Value) -> Option<Seq<char>> {
    match v {
        Value::Ascii(s) => Some(s@),
        Value::Datetime(s) => Some(s@),
        Value::FourCC(s) => Some(s@),
        Value::Utf8(s) => Some(s@),
        _ => None,
    }
}

/// The first error among `count` values decoded back to back at `pos`, or
/// `None` when all of them decode.
pub open spec fn values_error(
    data: Seq<u8>,
    pos: int,
    basetype: u8,
    basesize: u16,
    desc: Option<Seq<u8>>,
    count: nat,
) -> Option<GpmfError>
    decreases count,
{
    if count == 0 {
        None
    } else {
        match spec_value_error(data, pos, basetype, basesize, desc) {
            Some(e) => Some(e),
            None => values_error(
                data,
                pos + spec_value_consumed(basetype, basesize, desc),
                basetype,
                basesize,
                desc,
                (count - 1) as nat,
            ),
        }
    }
}

} // verus!
