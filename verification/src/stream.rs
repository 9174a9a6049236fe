//! The stream-tree builder: a bounded byte window into an ordered forest of
//! nodes, each either a nested container or a list of decoded values.
//!
//! Scanning a window stops without error at the window limit or at an
//! all-zero identifier (trailing zero-padding in some embeddings). A record
//! with the container base type is parsed recursively over exactly its
//! declared payload; any other record decodes `repeats` values. A record
//! tagged `TYPE` leaves its string in scope as the type descriptor for later
//! complex records; entering a container resets the descriptor.

use vstd::prelude::*;

use crate::bytes::be16;
use crate::data_types::{str_eq, DataType};
use crate::device_id::Dvid;
use crate::errors::GpmfError;
use crate::fourcc::{tag_eq, FourCC};
use crate::header::{pad_for, zeros_at, Header};
use crate::timestamp::Timestamp;
use crate::value::{
    iso_chars, lemma_complex_len_nonneg, lemma_complex_ok_bound, opt_bytes, spec_value_consumed,
    spec_string_of, spec_value_decoded, spec_value_error, values_error, Value, BT_ASCII,
    BT_COMPLEX, BT_DATETIME, BT_FOURCC, BT_NESTED, BT_UTF8,
};
use vstd::utf8::{decode_utf8, encode_utf8_decode_utf8};

verus! {

/// One node of the stream tree.
#[derive(Debug)]
pub struct Stream {
    /// The node's record header.
    pub header: Header,
    /// Children or decoded values.
    pub streams: StreamType,
    /// Relative timestamp, attached to top-level nodes after parsing.
    pub time: Option<Timestamp>,
}

/// What a node holds.
#[derive(Debug)]
pub enum StreamType {
    /// A container: nested child nodes.
    Nested(Vec<Stream>),
    /// A terminal node: decoded values.
    Values(Vec<Value>),
}

/// A position capped at the data's end: every read past the data sees zero
/// bytes, so scanning from any position past the end behaves as scanning
/// from the end itself.
pub open spec fn capped(x: int, n: int) -> int {
    if x > n {
        n
    } else {
        x
    }
}

/// The type descriptor a string value leaves in scope: its characters as
/// byte codes.
pub open spec fn spec_descriptor_of(v: &Value) -> Option<Seq<u8>> {
    match v {
        Value::Ascii(s) => Some(s@.map_values(|c: char| c as u8)),
        Value::Datetime(s) => Some(s@.map_values(|c: char| c as u8)),
        Value::FourCC(s) => Some(s@.map_values(|c: char| c as u8)),
        Value::Utf8(s) => Some(s@.map_values(|c: char| c as u8)),
        _ => None,
    }
}

/// The descriptor in scope after one terminal record: a `TYPE` record
/// replaces it with its first value's string (or clears it when that value
/// is not a string); any other record leaves it unchanged.
pub open spec fn next_ctype(h: Header, vals: Seq<Value>, ctype: Option<Seq<u8>>) -> Option<
    Seq<u8>,
> {
    if h.fourcc == FourCC::TYPE {
        spec_descriptor_of(&vals[0])
    } else {
        ctype
    }
}

/// Bytes the values of one terminal record span: none for an empty payload,
/// otherwise `repeats` values of equal size.
pub open spec fn terminal_consumed(h: Header, ctype: Option<Seq<u8>>) -> int {
    if h.payload_len() == 0 {
        0
    } else {
        h.repeats * spec_value_consumed(h.basetype, h.basesize, ctype)
    }
}

/// The values of one terminal record: a single `Empty` for a zero-length
/// payload, otherwise `repeats` values decoded back to back.
pub open spec fn terminal_decoded(
    vals: Seq<Value>,
    data: Seq<u8>,
    pos: int,
    h: Header,
    ctype: Option<Seq<u8>>,
) -> bool {
    if h.payload_len() == 0 {
        vals == seq![Value::Empty]
    } else {
        &&& vals.len() == h.repeats
        &&& forall|i: int|
            0 <= i < vals.len() ==> spec_value_decoded(
                #[trigger] vals[i],
                data,
                pos + i * spec_value_consumed(h.basetype, h.basesize, ctype),
                h.basetype,
                h.basesize,
                ctype,
            )
    }
}

/// Where a scan that produced `streams` from position `pos` stops: each
/// node advances the position past its header, content and padding (capped
/// at the data's end), a container by wherever its own inner scan stopped.
pub open spec fn forest_end(
    streams: Seq<Stream>,
    data: Seq<u8>,
    pos: int,
    ctype: Option<Seq<u8>>,
) -> int
    decreases streams,
{
    if streams.len() == 0 {
        pos
    } else {
        let s0 = streams[0];
        let h = s0.header;
        if h.basetype == BT_NESTED {
            match s0.streams {
                StreamType::Nested(children) => {
                    let mid = forest_end(children@, data, pos + 8, None);
                    forest_end(
                        streams.skip(1),
                        data,
                        capped(mid + h.pad, data.len() as int),
                        ctype,
                    )
                },
                StreamType::Values(_) => pos,
            }
        } else {
            match s0.streams {
                StreamType::Values(vals) => forest_end(
                    streams.skip(1),
                    data,
                    capped(pos + 8 + terminal_consumed(h, ctype) + h.pad, data.len() as int),
                    next_ctype(h, vals@, ctype),
                ),
                StreamType::Nested(_) => pos,
            }
        }
    }
}

/// What a successful scan of the window `pos..max` yields.
///
/// An empty forest means the scan stopped where it stood: at the limit, or
/// at an all-zero identifier (zero bytes past the data's end included).
/// Otherwise the first node's header stands at `pos`, its content follows,
/// and the rest of the forest continues past the node's padding with the
/// type-descriptor scope the node left behind.
pub open spec fn forest_decoded(
    streams: Seq<Stream>,
    data: Seq<u8>,
    pos: int,
    max: int,
    ctype: Option<Seq<u8>>,
) -> bool
    decreases streams,
{
    if streams.len() == 0 {
        pos >= max || zeros_at(data, pos)
    } else {
        let s0 = streams[0];
        let h = s0.header;
        &&& pos < max
        &&& !zeros_at(data, pos)
        &&& pos + 8 <= data.len()
        &&& h.decoded_at(data, pos)
        &&& s0.time is None
        &&& if h.basetype == BT_NESTED {
            match s0.streams {
                StreamType::Nested(children) => {
                    let mid = forest_end(children@, data, pos + 8, None);
                    &&& forest_decoded(
                        children@,
                        data,
                        pos + 8,
                        capped(pos + 8 + h.payload_len(), data.len() as int),
                        None,
                    )
                    &&& forest_decoded(
                        streams.skip(1),
                        data,
                        capped(mid + h.pad, data.len() as int),
                        max,
                        ctype,
                    )
                },
                StreamType::Values(_) => false,
            }
        } else {
            match s0.streams {
                StreamType::Values(vals) => {
                    &&& terminal_decoded(vals@, data, pos + 8, h, ctype)
                    &&& forest_decoded(
                        streams.skip(1),
                        data,
                        capped(pos + 8 + terminal_consumed(h, ctype) + h.pad, data.len() as int),
                        max,
                        next_ctype(h, vals@, ctype),
                    )
                },
                StreamType::Nested(_) => false,
            }
        }
    }
}

// ---------------------------------------------------------------------
// When a scan succeeds, stated over the bytes alone: the record header's
// fields, the descriptor a record leaves in scope, and the first decode
// error of a window, are all pure functions of the window, so the parser
// can owe success exactly where no record fails.
/// The base type byte of the record at `pos`.
pub open spec fn hdr_basetype(data: Seq<u8>, pos: int) -> u8 {
    data[pos + 4]
}

/// The record's unit size, after the string swap quirk.
pub open spec fn hdr_basesize(data: Seq<u8>, pos: int) -> u16 {
    if data[pos + 4] == BT_ASCII && data[pos + 5] == 1 {
        be16(data, pos + 6) as u16
    } else {
        data[pos + 5] as u16
    }
}

/// The record's repeat count, after the string swap quirk.
pub open spec fn hdr_repeats(data: Seq<u8>, pos: int) -> u16 {
    if data[pos + 4] == BT_ASCII && data[pos + 5] == 1 {
        1u16
    } else {
        be16(data, pos + 6) as u16
    }
}

/// The record's payload length in bytes.
pub open spec fn hdr_payload(data: Seq<u8>, pos: int) -> int {
    hdr_basesize(data, pos) * hdr_repeats(data, pos)
}

/// The record's padding to the next multiple of four.
pub open spec fn hdr_pad(data: Seq<u8>, pos: int) -> int {
    pad_for(hdr_payload(data, pos))
}

/// Whether the record at `pos` carries the type-descriptor tag.
pub open spec fn is_type_rec(data: Seq<u8>, pos: int) -> bool {
    data[pos] == 84 && data[pos + 1] == 89 && data[pos + 2] == 80 && data[pos + 3] == 69
}

/// The non-zero bytes of a payload, in order: what an extended-ASCII
/// string's characters map back to.
pub open spec fn nonzero_bytes(bs: Seq<u8>) -> Seq<u8>
    decreases bs.len(),
{
    if bs.len() == 0 {
        Seq::empty()
    } else {
        let rest = nonzero_bytes(bs.drop_last());
        if bs.last() == 0 {
            rest
        } else {
            rest.push(bs.last())
        }
    }
}

/// An extended-ASCII string's characters map back to exactly the non-zero
/// payload bytes.
pub proof fn lemma_iso_descriptor(bs: Seq<u8>)
    ensures
        iso_chars(bs).map_values(|c: char| c as u8) == nonzero_bytes(bs),
    decreases bs.len(),
{
    if bs.len() > 0 {
        lemma_iso_descriptor(bs.drop_last());
        if bs.last() != 0 {
            assert(iso_chars(bs).map_values(|c: char| c as u8) =~= iso_chars(
                bs.drop_last(),
            ).map_values(|c: char| c as u8).push(bs.last()));
        }
    }
}

/// The descriptor in scope after the record at `pos`, over the bytes
/// alone: a type-descriptor record replaces it with its first value's
/// characters as byte codes (nothing when that value is not a string);
/// any other record leaves it unchanged.
pub open spec fn scan_next_ctype(data: Seq<u8>, pos: int, ct: Option<Seq<u8>>) -> Option<Seq<u8>> {
    if !is_type_rec(data, pos) {
        ct
    } else {
        let bt = hdr_basetype(data, pos);
        let payload = data.subrange(pos + 8, pos + 8 + hdr_basesize(data, pos));
        if hdr_payload(data, pos) == 0 {
            None
        } else if bt == BT_ASCII || bt == BT_FOURCC || bt == BT_DATETIME {
            Some(nonzero_bytes(payload))
        } else if bt == BT_UTF8 {
            Some(decode_utf8(payload).map_values(|c: char| c as u8))
        } else {
            None
        }
    }
}

/// A position capped at the data's end but always past the record's own
/// eight header bytes, so that a scan always moves forward.
pub open spec fn advanced(x: int, pos: int, n: int) -> int {
    let c = capped(x, n);
    if c < pos + 8 {
        pos + 8
    } else {
        c
    }
}

/// Bytes the values of the terminal record at `pos` span.
pub open spec fn scan_consumed(data: Seq<u8>, pos: int, ct: Option<Seq<u8>>) -> int {
    if hdr_payload(data, pos) == 0 {
        0
    } else {
        hdr_repeats(data, pos) * spec_value_consumed(
            hdr_basetype(data, pos),
            hdr_basesize(data, pos),
            ct,
        )
    }
}

/// Where a scan of the window `pos..max` stops, over the bytes alone.
/// Meaningful on windows whose `scan_error` is `None`.
pub open spec fn scan_end(
    data: Seq<u8>,
    pos: int,
    max: int,
    depth: int,
    ct: Option<Seq<u8>>,
) -> int
    decreases depth, data.len() + 8 - pos,
{
    if pos >= max || zeros_at(data, pos) || pos + 8 > data.len() {
        pos
    } else {
        let n = data.len() as int;
        if hdr_basetype(data, pos) == BT_NESTED {
            if depth <= 0 {
                pos
            } else {
                let imax = capped(pos + 8 + hdr_payload(data, pos), n);
                let mid = scan_end(data, pos + 8, imax, depth - 1, None);
                let after = advanced(mid + hdr_pad(data, pos), pos, n);
                if after >= max || after >= n {
                    after
                } else {
                    scan_end(data, after, max, depth, ct)
                }
            }
        } else {
            let after = advanced(pos + 8 + scan_consumed(data, pos, ct) + hdr_pad(data, pos), pos, n);
            if after >= max || after >= n {
                after
            } else {
                scan_end(data, after, max, depth, scan_next_ctype(data, pos, ct))
            }
        }
    }
}

/// Why a scan of the window `pos..max` fails, or `None` when it succeeds:
/// the first record that fails to decode decides, and the limit or the
/// zero sentinel end a scan without error wherever they stand.
pub open spec fn scan_error(
    data: Seq<u8>,
    pos: int,
    max: int,
    depth: int,
    ct: Option<Seq<u8>>,
) -> Option<GpmfError>
    decreases depth, data.len() + 8 - pos,
{
    if pos >= max || zeros_at(data, pos) {
        None
    } else if pos + 8 > data.len() {
        Some(GpmfError::ReadMismatch { got: (data.len() - pos) as u64, expected: 8 })
    } else {
        let n = data.len() as int;
        if hdr_basetype(data, pos) == BT_NESTED {
            if depth <= 0 {
                Some(GpmfError::RecurseDepthExceeded)
            } else {
                let imax = capped(pos + 8 + hdr_payload(data, pos), n);
                match scan_error(data, pos + 8, imax, depth - 1, None) {
                    Some(e) => Some(e),
                    None => {
                        let mid = scan_end(data, pos + 8, imax, depth - 1, None);
                        let after = advanced(mid + hdr_pad(data, pos), pos, n);
                        if after >= max || after >= n {
                            None
                        } else {
                            scan_error(data, after, max, depth, ct)
                        }
                    },
                }
            }
        } else {
            let verr = if hdr_payload(data, pos) == 0 {
                None
            } else {
                values_error(
                    data,
                    pos + 8,
                    hdr_basetype(data, pos),
                    hdr_basesize(data, pos),
                    ct,
                    hdr_repeats(data, pos) as nat,
                )
            };
            match verr {
                Some(e) => Some(e),
                None => {
                    let after = advanced(
                        pos + 8 + scan_consumed(data, pos, ct) + hdr_pad(data, pos),
                        pos,
                        n,
                    );
                    if after >= max || after >= n {
                        None
                    } else {
                        scan_error(data, after, max, depth, scan_next_ctype(data, pos, ct))
                    }
                },
            }
        }
    }
}

/// A decoded header agrees with the byte-level header fields.
pub proof fn lemma_hdr_fields(data: Seq<u8>, pos: int, h: Header)
    requires
        h.decoded_at(data, pos),
    ensures
        h.basetype == hdr_basetype(data, pos),
        h.basesize == hdr_basesize(data, pos),
        h.repeats == hdr_repeats(data, pos),
        h.payload_len() == hdr_payload(data, pos),
        h.pad == hdr_pad(data, pos),
{
}

/// A decoded header carries the type-descriptor tag exactly when the four
/// identifier bytes spell it.
pub proof fn lemma_type_tag(data: Seq<u8>, pos: int, h: Header)
    requires
        h.decoded_at(data, pos),
    ensures
        (h.fourcc == FourCC::TYPE) == is_type_rec(data, pos),
{
    let c0 = data[pos] as char;
    let c1 = data[pos + 1] as char;
    let c2 = data[pos + 2] as char;
    let c3 = data[pos + 3] as char;
    if is_type_rec(data, pos) {
        assert(c0 == 'T' && c1 == 'Y' && c2 == 'P' && c3 == 'E');
    } else {
        if h.fourcc == FourCC::TYPE {
            assert(crate::fourcc::known_tag(c0, c1, c2, c3) == Some(FourCC::TYPE));
            assert(c0 == 'T' && c1 == 'Y' && c2 == 'P' && c3 == 'E');
            assert(data[pos] == 84 && data[pos + 1] == 89 && data[pos + 2] == 80 && data[pos + 3]
                == 69);
        }
    }
}

/// The descriptor a decoded terminal record leaves in scope agrees with
/// the byte-level statement of it.
pub proof fn lemma_descriptor_bytes(
    data: Seq<u8>,
    pos: int,
    h: Header,
    vals: Seq<Value>,
    ct: Option<Seq<u8>>,
)
    requires
        h.decoded_at(data, pos),
        h.basetype != BT_NESTED,
        terminal_decoded(vals, data, pos + 8, h, ct),
    ensures
        next_ctype(h, vals, ct) == scan_next_ctype(data, pos, ct),
{
    lemma_type_tag(data, pos, h);
    lemma_hdr_fields(data, pos, h);
    if h.fourcc == FourCC::TYPE {
        if h.payload_len() == 0 {
            assert(vals == seq![Value::Empty]);
            assert(spec_descriptor_of(&vals[0]) is None);
        } else {
            assert(h.repeats >= 1) by (nonlinear_arith)
                requires
                    h.basesize * h.repeats != 0,
            ;
            assert(vals.len() >= 1);
            let v0 = vals[0];
            assert(spec_value_decoded(
                v0,
                data,
                pos + 8 + 0 * spec_value_consumed(h.basetype, h.basesize, ct),
                h.basetype,
                h.basesize,
                ct,
            ));
            assert(pos + 8 + 0 * spec_value_consumed(h.basetype, h.basesize, ct) == pos + 8);
            let payload = data.subrange(pos + 8, pos + 8 + h.basesize);
            if h.basetype == BT_ASCII || h.basetype == BT_FOURCC || h.basetype == BT_DATETIME {
                lemma_iso_descriptor(payload);
            } else if h.basetype == BT_UTF8 {
                match v0 {
                    Value::Utf8(s) => {
                        encode_utf8_decode_utf8(s@);
                    },
                    _ => {
                        assert(false);
                    },
                }
            } else {
            }
        }
    }
}

/// A string's characters as byte codes, for use as a type descriptor.
fn descriptor_from_string(s: &String) -> (r: Vec<u8>)
    ensures
        r@ == s@.map_values(|c: char| c as u8),
{
    let st = s.as_str();
    let m = st.unicode_len();
    let mut out: Vec<u8> = Vec::new();
    let mut i: usize = 0;
    while i < m
        invariant
            m == st@.len(),
            st@ == s@,
            i <= m,
            out@.len() == i,
            forall|j: int| 0 <= j < i ==> out@[j] == s@.map_values(|c: char| c as u8)[j],
        decreases m - i,
    {
        let c = st.get_char(i);
        out.push(#[verifier::truncate] (c as u8));
        i = i + 1;
    }
    proof {
        assert(out@ =~= s@.map_values(|c: char| c as u8));
    }
    out
}

/// The type descriptor a terminal record's first value leaves in scope.
fn compute_descriptor(values: &Vec<Value>) -> (r: Option<Vec<u8>>)
    requires
        values@.len() > 0,
    ensures
        match r {
            Some(d) => spec_descriptor_of(&values@[0]) == Some(d@),
            None => spec_descriptor_of(&values@[0]) is None,
        },
{
    match &values[0] {
        Value::Ascii(s) => Some(descriptor_from_string(s)),
        Value::Datetime(s) => Some(descriptor_from_string(s)),
        Value::FourCC(s) => Some(descriptor_from_string(s)),
        Value::Utf8(s) => Some(descriptor_from_string(s)),
        _ => None,
    }
}

/// Decode the `repeats` values of one terminal record whose payload starts
/// at `body`.
fn read_values(data: &[u8], body: usize, header: &Header, ctype: Option<&Vec<u8>>) -> (r: Result<
    (Vec<Value>, usize),
    GpmfError,
>)
    requires
        body <= data@.len(),
        header.payload_len() != 0,
    ensures
        r matches Ok(t) ==> {
            &&& t.0@.len() > 0
            &&& terminal_decoded(t.0@, data@, body as int, *header, opt_bytes(ctype))
            &&& t.1 == body + terminal_consumed(*header, opt_bytes(ctype))
            &&& body <= t.1 <= data@.len()
        },
        match values_error(
            data@,
            body as int,
            header.basetype,
            header.basesize,
            opt_bytes(ctype),
            header.repeats as nat,
        ) {
            Some(e) => r == Err::<(Vec<Value>, usize), GpmfError>(e),
            None => r is Ok,
        },
{
    let ghost gct = opt_bytes(ctype);
    let ghost pv = spec_value_consumed(header.basetype, header.basesize, gct);
    proof {
        if header.basetype == BT_COMPLEX {
            match gct {
                Some(d) => lemma_complex_len_nonneg(d),
                None => {},
            }
        }
        assert(header.repeats >= 1) by (nonlinear_arith)
            requires
                header.basesize * header.repeats != 0,
        ;
    }
    let mut values: Vec<Value> = Vec::new();
    let mut cur: usize = body;
    let repeats = header.repeats as usize;
    let mut i: usize = 0;
    while i < repeats
        invariant
            body <= data@.len(),
            i <= repeats,
            repeats == header.repeats,
            values@.len() == i,
            body <= cur <= data@.len(),
            cur == body + i * pv,
            pv == spec_value_consumed(header.basetype, header.basesize, gct),
            pv >= 0,
            gct == opt_bytes(ctype),
            values_error(
                data@,
                body as int,
                header.basetype,
                header.basesize,
                gct,
                header.repeats as nat,
            ) == values_error(
                data@,
                cur as int,
                header.basetype,
                header.basesize,
                gct,
                (repeats - i) as nat,
            ),
            forall|j: int|
                0 <= j < i ==> spec_value_decoded(
                    #[trigger] values@[j],
                    data@,
                    body + j * pv,
                    header.basetype,
                    header.basesize,
                    gct,
                ),
        decreases repeats - i,
    {
        match Value::new(data, cur, header, ctype) {
            Ok((v, next)) => {
                proof {
                    if header.basetype == BT_COMPLEX {
                        match gct {
                            Some(d) => {
                                lemma_complex_ok_bound(data@, cur as int, d);
                                lemma_complex_len_nonneg(d);
                            },
                            None => {},
                        }
                    }
                    assert((i + 1) * pv == i * pv + pv) by (nonlinear_arith);
                }
                values.push(v);
                cur = next;
                i = i + 1;
            },
            Err(e) => {
                proof {
                    assert(values_error(
                        data@,
                        cur as int,
                        header.basetype,
                        header.basesize,
                        gct,
                        (repeats - i) as nat,
                    ) == Some(e));
                }
                return Err(e);
            },
        }
    }
    proof {
        assert(terminal_decoded(values@, data@, body as int, *header, gct));
        assert(cur == body + header.repeats * pv);
        assert(values_error(
            data@,
            cur as int,
            header.basetype,
            header.basesize,
            gct,
            0nat,
        ) is None);
    }
    Ok((values, cur))
}

impl Stream {
    /// Parse the records of the window `pos..max` into a forest of nodes.
    ///
    /// Scanning stops without error at the window limit or at an all-zero
    /// identifier; more than one top-level node can come out of one window.
    /// `depth` is the remaining recursion allowance: a container met at zero
    /// depth is a `RecurseDepthExceeded` error rather than unbounded
    /// recursion. `ctype` is the type descriptor in scope; a fresh parse of
    /// a whole window starts with `None`.
    ///
    /// On success the forest is exactly what the bytes describe and the
    /// returned position is where scanning stopped; a window that starts at
    /// its limit or at the zero sentinel always succeeds with no nodes.
    #[verifier::rlimit(100)]
    pub fn new(data: &[u8], pos: usize, max: usize, depth: usize, ctype: Option<&Vec<u8>>) -> (r:
        Result<(Vec<Stream>, usize), GpmfError>)
        requires
            pos <= data@.len(),
        ensures
            r matches Ok(t) ==> {
                &&& forest_decoded(t.0@, data@, pos as int, max as int, opt_bytes(ctype))
                &&& t.1 as int == forest_end(t.0@, data@, pos as int, opt_bytes(ctype))
                &&& t.1 as int == scan_end(
                    data@,
                    pos as int,
                    max as int,
                    depth as int,
                    opt_bytes(ctype),
                )
                &&& pos <= t.1 <= data@.len()
            },
            match scan_error(data@, pos as int, max as int, depth as int, opt_bytes(ctype)) {
                Some(e) => r == Err::<(Vec<Stream>, usize), GpmfError>(e),
                None => r is Ok,
            },
            pos >= max || zeros_at(data@, pos as int) ==> r is Ok && r->Ok_0.0@ =~= Seq::<
                Stream,
            >::empty() && r->Ok_0.1 == pos,
        decreases depth, max - pos,
    {
        let n = data.len();
        if pos >= max {
            return Ok((Vec::new(), pos));
        }
        let header = match Header::new(data, pos) {
            Ok(h) => h,
            Err(e) => {
                proof {
                    assert(!zeros_at(data@, pos as int));
                    assert(scan_error(data@, pos as int, max as int, depth as int, opt_bytes(ctype))
                        == Some(e));
                }
                return Err(e);
            },
        };
        if header.is_invalid() {
            return Ok((Vec::new(), pos));
        }
        let body = pos + 8;
        let pad = header.pad as usize;
        let ghost gct = opt_bytes(ctype);
        proof {
            assert(header.decoded_at(data@, pos as int));
            lemma_hdr_fields(data@, pos as int, header);
        }

        if header.basetype == BT_NESTED {
            if depth == 0 {
                proof {
                    assert(scan_error(data@, pos as int, max as int, depth as int, gct) == Some(
                        GpmfError::RecurseDepthExceeded,
                    ));
                }
                return Err(GpmfError::RecurseDepthExceeded);
            }
            let size = header.size(false) as u64;
            // A declared limit past the data behaves like the data's end:
            // every read past the data sees zero bytes and stops there.
            let inner_max: usize = if size > (n - body) as u64 {
                n
            } else {
                body + size as usize
            };
            proof {
                assert(inner_max as int == capped(
                    pos as int + 8 + hdr_payload(data@, pos as int),
                    data@.len() as int,
                ));
            }
            let (children, mid) = match Self::new(data, body, inner_max, depth - 1, None) {
                Ok(t) => t,
                Err(e) => {
                    proof {
                        assert(scan_error(data@, pos as int, max as int, depth as int, gct)
                            == Some(e));
                    }
                    return Err(e);
                },
            };
            let ghost gchildren = children@;
            let node = Stream { header, streams: StreamType::Nested(children), time: None };
            let after: usize = if pad > n - mid {
                n
            } else {
                mid + pad
            };
            proof {
                assert(after as int == capped(mid as int + node.header.pad, data@.len() as int));
                assert(inner_max as int == capped(
                    pos as int + 8 + node.header.payload_len(),
                    data@.len() as int,
                ));
                assert(mid as int == scan_end(
                    data@,
                    body as int,
                    inner_max as int,
                    depth as int - 1,
                    None,
                ));
                assert(after as int == advanced(
                    mid as int + hdr_pad(data@, pos as int),
                    pos as int,
                    data@.len() as int,
                ));
            }
            let mut result: Vec<Stream> = Vec::new();
            if after >= max || after >= n {
                result.push(node);
                proof {
                    assert(after >= n ==> zeros_at(data@, after as int));
                    assert(result@[0] == node);
                    assert(result@.skip(1) =~= Seq::<Stream>::empty());
                    assert(forest_decoded(result@.skip(1), data@, after as int, max as int, gct));
                    assert(forest_end(result@.skip(1), data@, after as int, gct) == after as int);
                    assert(forest_decoded(result@, data@, pos as int, max as int, gct));
                    assert(forest_end(result@, data@, pos as int, gct) == after as int);
                    assert(scan_error(data@, pos as int, max as int, depth as int, gct) is None);
                    assert(scan_end(data@, pos as int, max as int, depth as int, gct)
                        == after as int);
                }
                return Ok((result, after));
            }
            let (mut rest, end) = match Self::new(data, after, max, depth, ctype) {
                Ok(t) => t,
                Err(e) => {
                    proof {
                        assert(scan_error(data@, pos as int, max as int, depth as int, gct)
                            == Some(e));
                    }
                    return Err(e);
                },
            };
            let ghost grest = rest@;
            result.push(node);
            result.append(&mut rest);
            proof {
                assert(result@[0] == node);
                assert(result@.skip(1) =~= grest);
                assert(forest_decoded(result@, data@, pos as int, max as int, gct));
                assert(forest_end(result@, data@, pos as int, gct) == end as int);
                assert(scan_error(data@, pos as int, max as int, depth as int, gct) is None);
                assert(scan_end(data@, pos as int, max as int, depth as int, gct) == end as int);
            }
            Ok((result, end))
        } else {
            let empty_payload = header.size(false) == 0;
            let (values, cur): (Vec<Value>, usize) = if empty_payload {
                let mut values: Vec<Value> = Vec::new();
                values.push(Value::Empty);
                proof {
                    assert(values@ =~= seq![Value::Empty]);
                }
                (values, body)
            } else {
                match read_values(data, body, &header, ctype) {
                    Ok(t) => t,
                    Err(e) => {
                        proof {
                            assert(values_error(
                                data@,
                                body as int,
                                header.basetype,
                                header.basesize,
                                gct,
                                header.repeats as nat,
                            ) == Some(e));
                            assert(scan_error(data@, pos as int, max as int, depth as int, gct)
                                == Some(e));
                        }
                        return Err(e);
                    },
                }
            };
            // A TYPE record leaves its first value's string in scope as the
            // descriptor for later complex records.
            let is_type_tag = header.fourcc.eq(&FourCC::TYPE);
            proof {
                assert(is_type_tag == (header.fourcc == FourCC::TYPE));
            }
            let new_desc: Option<Vec<u8>> = if is_type_tag {
                compute_descriptor(&values)
            } else {
                None
            };
            let ghost gvals = values@;
            let node = Stream { header, streams: StreamType::Values(values), time: None };
            let ghost gct2 = next_ctype(node.header, gvals, gct);
            let after: usize = if pad > n - cur {
                n
            } else {
                cur + pad
            };
            proof {
                assert(after as int == capped(
                    pos + 8 + terminal_consumed(node.header, gct) + node.header.pad,
                    data@.len() as int,
                ));
                assert(terminal_decoded(gvals, data@, body as int, node.header, gct));
                lemma_descriptor_bytes(data@, pos as int, node.header, gvals, gct);
                assert(gct2 == scan_next_ctype(data@, pos as int, gct));
                assert(terminal_consumed(node.header, gct) == scan_consumed(
                    data@,
                    pos as int,
                    gct,
                ));
                assert(after as int == advanced(
                    pos + 8 + scan_consumed(data@, pos as int, gct) + hdr_pad(data@, pos as int),
                    pos as int,
                    data@.len() as int,
                ));
            }
            let next_ref: Option<&Vec<u8>> = if is_type_tag {
                match &new_desc {
                    Some(d) => Some(d),
                    None => None,
                }
            } else {
                ctype
            };
            proof {
                assert(opt_bytes(next_ref) == gct2);
            }
            let mut result: Vec<Stream> = Vec::new();
            if after >= max || after >= n {
                result.push(node);
                proof {
                    assert(after >= n ==> zeros_at(data@, after as int));
                    assert(result@[0] == node);
                    assert(result@.skip(1) =~= Seq::<Stream>::empty());
                    assert(forest_decoded(result@.skip(1), data@, after as int, max as int, gct2));
                    assert(forest_end(result@.skip(1), data@, after as int, gct2) == after as int);
                    assert(terminal_decoded(gvals, data@, body as int, node.header, gct));
                    assert(forest_decoded(result@, data@, pos as int, max as int, gct));
                    assert(forest_end(result@, data@, pos as int, gct) == after as int);
                    assert(scan_error(data@, pos as int, max as int, depth as int, gct) is None);
                    assert(scan_end(data@, pos as int, max as int, depth as int, gct)
                        == after as int);
                }
                return Ok((result, after));
            }
            let (mut rest, end) = match Self::new(data, after, max, depth, next_ref) {
                Ok(t) => t,
                Err(e) => {
                    proof {
                        assert(scan_error(data@, pos as int, max as int, depth as int, gct)
                            == Some(e));
                    }
                    return Err(e);
                },
            };
            let ghost grest = rest@;
            result.push(node);
            result.append(&mut rest);
            proof {
                assert(result@[0] == node);
                assert(result@.skip(1) =~= grest);
                assert(terminal_decoded(gvals, data@, body as int, node.header, gct));
                assert(forest_decoded(result@, data@, pos as int, max as int, gct));
                assert(forest_end(result@, data@, pos as int, gct) == end as int);
                assert(scan_error(data@, pos as int, max as int, depth as int, gct) is None);
                assert(scan_end(data@, pos as int, max as int, depth as int, gct) == end as int);
            }
            Ok((result, end))
        }
    }
}

/// A node matched by content-type name, carrying the timestamp it inherits
/// from its top-level parent (only top-level nodes normally carry one).
#[derive(Debug)]
pub struct Matched<'a> {
    /// The matched named sub-stream.
    pub stream: &'a Stream,
    /// The parent's relative timestamp.
    pub time: Option<Timestamp>,
}

/// The first node of the list whose tag matches, if any.
pub open spec fn first_matching(ch: Seq<Stream>, fourcc: &FourCC) -> Option<Stream>
    decreases ch.len(),
{
    if ch.len() == 0 {
        None
    } else if tag_eq(&ch[0].header.fourcc, fourcc) {
        Some(ch[0])
    } else {
        first_matching(ch.skip(1), fourcc)
    }
}

/// All nodes of the list whose tag matches, in order.
pub open spec fn all_matching(ch: Seq<Stream>, fourcc: &FourCC) -> Seq<Stream>
    decreases ch.len(),
{
    if ch.len() == 0 {
        Seq::empty()
    } else {
        let rest = all_matching(ch.drop_last(), fourcc);
        if tag_eq(&ch.last().header.fourcc, fourcc) {
            rest.push(ch.last())
        } else {
            rest
        }
    }
}

impl Stream {
    /// The node's own first value, when it is a terminal node with values.
    pub open spec fn spec_first_value(&self) -> Option<Value> {
        match self.streams {
            StreamType::Values(vals) => if vals@.len() > 0 {
                Some(vals@[0])
            } else {
                None
            },
            StreamType::Nested(_) => None,
        }
    }

    /// The first node with the given tag: this node itself, or the first of
    /// its direct children (one level down, not recursive).
    pub open spec fn spec_find(&self, fourcc: &FourCC) -> Option<Stream> {
        if tag_eq(&self.header.fourcc, fourcc) {
            Some(*self)
        } else {
            match self.streams {
                StreamType::Nested(ch) => first_matching(ch@, fourcc),
                StreamType::Values(_) => None,
            }
        }
    }

    /// The node's display name: the string of the first name record found
    /// on it or its direct children.
    pub open spec fn spec_name(&self) -> Option<Seq<char>> {
        match self.spec_find(&FourCC::STNM) {
            Some(n) => match n.spec_first_value() {
                Some(v) => spec_string_of(&v),
                None => None,
            },
            None => None,
        }
    }

    /// Declared byte size of the node's own payload, padded if `aligned`.
    pub fn size(&self, aligned: bool) -> (r: u32)
        ensures
            aligned ==> r == self.header.payload_len() + self.header.pad,
            !aligned ==> r == self.header.payload_len(),
    {
        self.header.size(aligned)
    }

    /// Number of children of a container, or of values of a terminal node.
    pub fn len(&self) -> (r: usize)
        ensures
            match self.streams {
                StreamType::Nested(ch) => r == ch@.len(),
                StreamType::Values(vals) => r == vals@.len(),
            },
    {
        match &self.streams {
            StreamType::Nested(ch) => ch.len(),
            StreamType::Values(vals) => vals.len(),
        }
    }

    /// Whether the node has no children or no values.
    pub fn is_empty(&self) -> (r: bool)
        ensures
            match self.streams {
                StreamType::Nested(ch) => r == (ch@.len() == 0),
                StreamType::Values(vals) => r == (vals@.len() == 0),
            },
    {
        self.len() == 0
    }

    /// The node's tag.
    pub fn fourcc(&self) -> (r: &FourCC)
        ensures
            r == &self.header.fourcc,
    {
        &self.header.fourcc
    }

    /// Whether the node's tag matches.
    pub fn has_fourcc(&self, fourcc: &FourCC) -> (r: bool)
        ensures
            r == tag_eq(&self.header.fourcc, fourcc),
    {
        self.header.fourcc.eq(fourcc)
    }

    /// Whether the node is a container.
    pub fn is_nested(&self) -> (r: bool)
        ensures
            r == (self.streams matches StreamType::Nested(_)),
    {
        match &self.streams {
            StreamType::Nested(_) => true,
            StreamType::Values(_) => false,
        }
    }

    /// The values of a terminal node; a container has none.
    pub fn values(&self) -> (r: Option<&Vec<Value>>)
        ensures
            match self.streams {
                StreamType::Values(vals) => r matches Some(v) && v@ == vals@,
                StreamType::Nested(_) => r is None,
            },
    {
        match &self.streams {
            StreamType::Nested(_) => None,
            StreamType::Values(vals) => Some(vals),
        }
    }

    /// The first value of a terminal node.
    pub fn first_value(&self) -> (r: Option<&Value>)
        ensures
            match r {
                Some(v) => self.spec_first_value() == Some(*v),
                None => self.spec_first_value() is None,
            },
    {
        match &self.streams {
            StreamType::Values(vals) => if vals.len() > 0 {
                Some(&vals[0])
            } else {
                None
            },
            StreamType::Nested(_) => None,
        }
    }

    /// The last value of a terminal node.
    pub fn last_value(&self) -> (r: Option<&Value>)
        ensures
            match self.streams {
                StreamType::Values(vals) => if vals@.len() > 0 {
                    r matches Some(v) && *v == vals@.last()
                } else {
                    r is None
                },
                StreamType::Nested(_) => r is None,
            },
    {
        match &self.streams {
            StreamType::Values(vals) => if vals.len() > 0 {
                Some(&vals[vals.len() - 1])
            } else {
                None
            },
            StreamType::Nested(_) => None,
        }
    }

    /// The first child of a container.
    pub fn first_stream(&self) -> (r: Option<&Stream>)
        ensures
            match self.streams {
                StreamType::Nested(ch) => if ch@.len() > 0 {
                    r matches Some(s) && *s == ch@[0]
                } else {
                    r is None
                },
                StreamType::Values(_) => r is None,
            },
    {
        match &self.streams {
            StreamType::Nested(ch) => if ch.len() > 0 {
                Some(&ch[0])
            } else {
                None
            },
            StreamType::Values(_) => None,
        }
    }

    /// The last child of a container.
    pub fn last_stream(&self) -> (r: Option<&Stream>)
        ensures
            match self.streams {
                StreamType::Nested(ch) => if ch@.len() > 0 {
                    r matches Some(s) && *s == ch@.last()
                } else {
                    r is None
                },
                StreamType::Values(_) => r is None,
            },
    {
        match &self.streams {
            StreamType::Nested(ch) => if ch.len() > 0 {
                Some(&ch[ch.len() - 1])
            } else {
                None
            },
            StreamType::Values(_) => None,
        }
    }

    /// Attach a relative timestamp; nothing else changes.
    pub fn set_time(&mut self, time: &Timestamp)
        ensures
            final(self).header == old(self).header,
            final(self).streams == old(self).streams,
            final(self).time == Some(*time),
    {
        self.time = Some(*time);
    }

    /// The node's relative time in milliseconds, if a timestamp is set.
    pub fn time_relative_ms(&self) -> (r: Option<i64>)
        ensures
            match self.time {
                Some(t) => r == Some(t.relative),
                None => r is None,
            },
    {
        match &self.time {
            Some(t) => Some(t.relative),
            None => None,
        }
    }

    /// The node's chunk duration in milliseconds, if a timestamp is set.
    pub fn time_duration_ms(&self) -> (r: Option<i64>)
        ensures
            match self.time {
                Some(t) => r == Some(t.duration),
                None => r is None,
            },
    {
        match &self.time {
            Some(t) => Some(t.duration),
            None => None,
        }
    }

    /// The first node with the given tag: this node itself, or the first
    /// match among its direct children.
    pub fn find<'a>(&'a self, fourcc: &FourCC) -> (r: Option<&'a Stream>)
        ensures
            match r {
                Some(s) => self.spec_find(fourcc) == Some(*s),
                None => self.spec_find(fourcc) is None,
            },
    {
        if self.header.fourcc.eq(fourcc) {
            return Some(self);
        }
        match &self.streams {
            StreamType::Nested(ch) => {
                let m = ch.len();
                let mut i: usize = 0;
                proof {
                    assert(ch@.skip(0) =~= ch@);
                }
                while i < m
                    invariant
                        m == ch@.len(),
                        i <= m,
                        !tag_eq(&self.header.fourcc, fourcc),
                        self.streams matches StreamType::Nested(c) && c@ == ch@,
                        first_matching(ch@, fourcc) == first_matching(ch@.skip(i as int), fourcc),
                    decreases m - i,
                {
                    proof {
                        assert(ch@.skip(i as int)[0] == ch@[i as int]);
                        assert(ch@.skip(i as int).skip(1) =~= ch@.skip(i as int + 1));
                    }
                    if ch[i].header.fourcc.eq(fourcc) {
                        return Some(&ch[i]);
                    }
                    i = i + 1;
                }
                proof {
                    assert(ch@.skip(m as int).len() == 0);
                }
                None
            },
            StreamType::Values(_) => None,
        }
    }

    /// All direct children with the given tag, in order. Only children are
    /// searched, not this node itself and not deeper levels.
    pub fn find_all<'a>(&'a self, fourcc: &FourCC) -> (r: Vec<&'a Stream>)
        ensures
            r@.map_values(|s: &Stream| *s) == match self.streams {
                StreamType::Nested(ch) => all_matching(ch@, fourcc),
                StreamType::Values(_) => Seq::<Stream>::empty(),
            },
    {
        let mut out: Vec<&Stream> = Vec::new();
        match &self.streams {
            StreamType::Nested(ch) => {
                let m = ch.len();
                let mut i: usize = 0;
                while i < m
                    invariant
                        m == ch@.len(),
                        i <= m,
                        out@.map_values(|s: &Stream| *s) == all_matching(
                            ch@.take(i as int),
                            fourcc,
                        ),
                    decreases m - i,
                {
                    proof {
                        assert(ch@.take(i as int + 1).drop_last() =~= ch@.take(i as int));
                        assert(ch@.take(i as int + 1).last() == ch@[i as int]);
                    }
                    if ch[i].header.fourcc.eq(fourcc) {
                        out.push(&ch[i]);
                    }
                    proof {
                        assert(out@.map_values(|s: &Stream| *s) =~= all_matching(
                            ch@.take(i as int + 1),
                            fourcc,
                        ));
                    }
                    i = i + 1;
                }
                proof {
                    assert(ch@.take(m as int) =~= ch@);
                }
            },
            StreamType::Values(_) => {
                proof {
                    assert(out@.map_values(|s: &Stream| *s) =~= Seq::<Stream>::empty());
                }
            },
        }
        out
    }

    /// The node's display name: the string of the first name record found
    /// on it or its direct children.
    pub fn name(&self) -> (r: Option<String>)
        ensures
            match r {
                Some(s) => self.spec_name() == Some(s@),
                None => self.spec_name() is None,
            },
    {
        match self.find(&FourCC::STNM) {
            Some(n) => match &n.streams {
                StreamType::Values(vals) => if vals.len() > 0 {
                    match &vals[0] {
                        Value::Ascii(s) => Some(s.clone()),
                        Value::Datetime(s) => Some(s.clone()),
                        Value::FourCC(s) => Some(s.clone()),
                        Value::Utf8(s) => Some(s.clone()),
                        _ => None,
                    }
                } else {
                    None
                },
                StreamType::Nested(_) => None,
            },
            None => None,
        }
    }
}

/// All nodes of the list whose display name matches, in order.
pub open spec fn named_matching(ch: Seq<Stream>, name: Seq<char>) -> Seq<Stream>
    decreases ch.len(),
{
    if ch.len() == 0 {
        Seq::empty()
    } else {
        let rest = named_matching(ch.drop_last(), name);
        if ch.last().spec_name() == Some(name) {
            rest.push(ch.last())
        } else {
            rest
        }
    }
}

impl Stream {
    /// The value the node's device-identifier record holds: the node's own
    /// first value for an identifier record, the first value of the first
    /// identifier child for a chunk container.
    pub open spec fn spec_tagged_value(&self, tag: FourCC) -> Option<Value> {
        if tag_eq(&self.header.fourcc, &tag) {
            self.spec_first_value()
        } else if tag_eq(&self.header.fourcc, &FourCC::DEVC) {
            match self.spec_find(&tag) {
                Some(s) => s.spec_first_value(),
                None => None,
            }
        } else {
            None
        }
    }

    /// The direct children whose display name matches the content type,
    /// each carrying this node's timestamp (a match inherits its parent's
    /// time, which it does not carry itself).
    pub fn filter<'a>(&'a self, content_type: &DataType) -> (r: Vec<Matched<'a>>)
        ensures
            r@.map_values(|m: Matched<'a>| *m.stream) == match self.streams {
                StreamType::Nested(ch) => named_matching(ch@, content_type.spec_render()),
                StreamType::Values(_) => Seq::<Stream>::empty(),
            },
            forall|i: int| 0 <= i < r@.len() ==> (#[trigger] r@[i]).time == self.time,
    {
        let want = content_type.to_str();
        let mut out: Vec<Matched<'a>> = Vec::new();
        match &self.streams {
            StreamType::Nested(ch) => {
                let m = ch.len();
                let mut i: usize = 0;
                while i < m
                    invariant
                        m == ch@.len(),
                        want@ == content_type.spec_render(),
                        i <= m,
                        out@.map_values(|x: Matched<'a>| *x.stream) == named_matching(
                            ch@.take(i as int),
                            content_type.spec_render(),
                        ),
                        forall|j: int| 0 <= j < out@.len() ==> (#[trigger] out@[j]).time == self.time,
                    decreases m - i,
                {
                    proof {
                        assert(ch@.take(i as int + 1).drop_last() =~= ch@.take(i as int));
                        assert(ch@.take(i as int + 1).last() == ch@[i as int]);
                    }
                    let is_match = match ch[i].name() {
                        Some(nm) => str_eq(nm.as_str(), want),
                        None => false,
                    };
                    if is_match {
                        out.push(Matched { stream: &ch[i], time: self.time });
                    }
                    proof {
                        assert(out@.map_values(|x: Matched<'a>| *x.stream) =~= named_matching(
                            ch@.take(i as int + 1),
                            content_type.spec_render(),
                        ));
                    }
                    i = i + 1;
                }
                proof {
                    assert(ch@.take(m as int) =~= ch@);
                }
            },
            StreamType::Values(_) => {
                proof {
                    assert(out@.map_values(|x: Matched<'a>| *x.stream) =~= Seq::<Stream>::empty());
                }
            },
        }
        out
    }

    /// The device identifier, read from an identifier record or from the
    /// first identifier child of a chunk container. An identifier that is a
    /// string of any length other than four characters yields nothing
    /// rather than stopping the process.
    pub fn device_id(&self) -> (r: Option<Dvid>)
        ensures
            match self.spec_tagged_value(FourCC::DVID) {
                Some(Value::Uint32(ns)) => if ns@.len() > 0 {
                    r matches Some(Dvid::Uint32(n)) && n == ns@[0]
                } else {
                    r is None
                },
                Some(Value::FourCC(s)) => if s@.len() == 4 {
                    r matches Some(Dvid::FourCC(f)) && crate::fourcc::parsed_tag(
                        f,
                        s@[0],
                        s@[1],
                        s@[2],
                        s@[3],
                    )
                } else {
                    r is None
                },
                _ => r is None,
            },
    {
        let v: Option<&Value> = if self.header.fourcc.eq(&FourCC::DVID) {
            self.first_value()
        } else if self.header.fourcc.eq(&FourCC::DEVC) {
            match self.find(&FourCC::DVID) {
                Some(s) => s.first_value(),
                None => None,
            }
        } else {
            None
        };
        match v {
            Some(Value::Uint32(ns)) => if ns.len() > 0 {
                Some(Dvid::Uint32(ns[0]))
            } else {
                None
            },
            Some(Value::FourCC(s)) => {
                if s.as_str().unicode_len() == 4 {
                    Some(Dvid::FourCC(FourCC::from_str(s.as_str())))
                } else {
                    None
                }
            },
            _ => None,
        }
    }

    /// The device's display name, read from a device-name record or from
    /// the first device-name child of a chunk container.
    pub fn device_name(&self) -> (r: Option<String>)
        ensures
            match self.spec_tagged_value(FourCC::DVNM) {
                Some(v) => match spec_string_of(&v) {
                    Some(s) => r matches Some(x) && x@ == s,
                    None => r is None,
                },
                None => r is None,
            },
    {
        let v: Option<&Value> = if self.header.fourcc.eq(&FourCC::DVNM) {
            self.first_value()
        } else if self.header.fourcc.eq(&FourCC::DEVC) {
            match self.find(&FourCC::DVNM) {
                Some(s) => s.first_value(),
                None => None,
            }
        } else {
            None
        };
        match v {
            Some(Value::Ascii(s)) => Some(s.clone()),
            Some(Value::Datetime(s)) => Some(s.clone()),
            Some(Value::FourCC(s)) => Some(s.clone()),
            Some(Value::Utf8(s)) => Some(s.clone()),
            _ => None,
        }
    }
}

/// Every node of a decoded forest is parsed without a timestamp; the
/// synthesizer attaches timestamps afterwards.
pub proof fn lemma_forest_times_none(
    streams: Seq<Stream>,
    data: Seq<u8>,
    pos: int,
    max: int,
    ctype: Option<Seq<u8>>,
)
    requires
        forest_decoded(streams, data, pos, max, ctype),
    ensures
        forall|i: int| 0 <= i < streams.len() ==> (#[trigger] streams[i]).time is None,
    decreases streams.len(),
{
    if streams.len() > 0 {
        let s0 = streams[0];
        let h = s0.header;
        if h.basetype == BT_NESTED {
            match s0.streams {
                StreamType::Nested(children) => {
                    let mid = forest_end(children@, data, pos + 8, None);
                    lemma_forest_times_none(
                        streams.skip(1),
                        data,
                        capped(mid + h.pad, data.len() as int),
                        max,
                        ctype,
                    );
                },
                StreamType::Values(_) => {},
            }
        } else {
            match s0.streams {
                StreamType::Values(vals) => {
                    lemma_forest_times_none(
                        streams.skip(1),
                        data,
                        capped(pos + 8 + terminal_consumed(h, ctype) + h.pad, data.len() as int),
                        max,
                        next_ctype(h, vals@, ctype),
                    );
                },
                StreamType::Nested(_) => {},
            }
        }
        assert forall|i: int| 0 <= i < streams.len() implies (#[trigger] streams[i]).time
            is None by {
            if i > 0 {
                assert(streams[i] == streams.skip(1)[i - 1]);
            }
        }
    }
}

} // verus!
