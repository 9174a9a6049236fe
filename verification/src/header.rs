//! The fixed eight-byte record header and its alignment arithmetic.
//!
//! Layout: four identifier bytes, one base-type byte, one raw-size byte, two
//! raw-repeat bytes (big-endian). Header, payload and zero padding together
//! always span a multiple of four bytes on disk.

use vstd::prelude::*;

use crate::bytes::{be16, be_u16};
use crate::errors::GpmfError;
use crate::fourcc::{byte_or_zero, parsed_tag, FourCC};

verus! {

/// Decoded record header.
#[derive(Debug, Clone)]
pub struct Header {
    /// Record identifier.
    pub fourcc: FourCC,
    /// Base type code (one ASCII character, or zero for a nested container).
    pub basetype: u8,
    /// Payload unit size in bytes. Widened from the on-disk byte so that the
    /// raw size and repeat fields can swap places for string records.
    pub basesize: u16,
    /// Number of payload units.
    pub repeats: u16,
    /// Zero bytes of padding after the payload (zero to three).
    pub pad: u8,
}

/// Padding that brings a payload of `size` bytes to a multiple of four.
pub open spec fn pad_for(size: int) -> int {
    if size % 4 == 0 {
        0
    } else {
        4 - size % 4
    }
}

/// Canonical byte width of a base type code, used to size one slot of a
/// complex record.
pub open spec fn spec_baselen(basetype: u8) -> u8 {
    if basetype == 98 || basetype == 66 || basetype == 99 || basetype == 0 || basetype == 63 {
        1
    } else if basetype == 115 || basetype == 83 {
        2
    } else if basetype == 108 || basetype == 76 || basetype == 102 || basetype == 113 || basetype
        == 70 {
        4
    } else if basetype == 100 || basetype == 106 || basetype == 74 || basetype == 81 {
        8
    } else if basetype == 85 || basetype == 71 {
        16
    } else {
        1
    }
}

/// Whether the four identifier bytes at `pos` (zero-extended past the window
/// end) are all zero: the sentinel that stops a scan.
pub open spec fn zeros_at(data: Seq<u8>, pos: int) -> bool {
    byte_or_zero(data, pos) == 0 && byte_or_zero(data, pos + 1) == 0 && byte_or_zero(data, pos + 2)
        == 0 && byte_or_zero(data, pos + 3) == 0
}

impl Header {
    /// Payload length in bytes: unit size times repeat count.
    pub open spec fn payload_len(&self) -> int {
        self.basesize * self.repeats
    }

    /// The padding field agrees with the payload length.
    pub open spec fn wf(&self) -> bool {
        self.pad == pad_for(self.payload_len())
    }

    /// The header that stands for the all-zero sentinel.
    pub open spec fn spec_sentinel() -> Header {
        Header { fourcc: FourCC::Invalid, basetype: 0, basesize: 0, repeats: 0, pad: 0 }
    }

    /// What decoding the eight header bytes at `pos` must yield, given that
    /// the identifier is not the all-zero sentinel: the tag is parsed from the
    /// first four bytes, the raw size and repeat fields swap places for the
    /// string quirk, and the padding is computed from the payload length.
    pub open spec fn decoded_at(&self, data: Seq<u8>, pos: int) -> bool {
        let bt = data[pos + 4];
        let bs = data[pos + 5];
        let rp = be16(data, pos + 6);
        &&& parsed_tag(
            self.fourcc,
            data[pos] as char,
            data[pos + 1] as char,
            data[pos + 2] as char,
            data[pos + 3] as char,
        )
        &&& self.basetype == bt
        &&& if bt == 99 && bs == 1 {
            self.basesize == rp && self.repeats == 1
        } else {
            self.basesize == bs && self.repeats == rp
        }
        &&& self.wf()
    }

    /// Decode the record header at `pos`.
    ///
    /// An all-zero identifier yields the sentinel header, the signal to stop
    /// scanning a zero-padded window. Otherwise all eight header bytes must
    /// lie inside the window.
    pub fn new(data: &[u8], pos: usize) -> (r: Result<Header, GpmfError>)
        requires
            pos <= data@.len(),
        ensures
            zeros_at(data@, pos as int) ==> r == Ok::<Header, GpmfError>(Header::spec_sentinel()),
            !zeros_at(data@, pos as int) && pos + 8 <= data@.len() ==> r is Ok
                && r->Ok_0.decoded_at(data@, pos as int),
            !zeros_at(data@, pos as int) && pos + 8 > data@.len() ==> r == Err::<
                Header,
                GpmfError,
            >(GpmfError::ReadMismatch { got: (data@.len() - pos) as u64, expected: 8 }),
    {
        let fourcc = FourCC::new(data, pos);
        if fourcc.is_invalid() {
            proof {
                // Only the all-zero identifier parses to the sentinel.
                assert(zeros_at(data@, pos as int) <==> (fourcc matches FourCC::Invalid));
            }
            return Ok(
                Header { fourcc: FourCC::Invalid, basetype: 0, basesize: 0, repeats: 0, pad: 0 },
            );
        }
        if data.len() - pos < 8 {
            return Err(GpmfError::ReadMismatch { got: (data.len() - pos) as u64, expected: 8 });
        }
        let basetype = data[pos + 4];
        let tmp_basesize = data[pos + 5];
        let tmp_repeats = be_u16(data, pos + 6);

        // Two device generations encode string length in opposite fields:
        // swap raw size and repeat when the base type is the string code and
        // the raw size is one.
        let (basesize, repeats): (u16, u16) = if basetype == 99 && tmp_basesize == 1 {
            (tmp_repeats, 1)
        } else {
            (tmp_basesize as u16, tmp_repeats)
        };

        let bs32 = basesize as u32;
        let rp32 = repeats as u32;
        proof {
            assert(bs32 * rp32 <= 0xffff * 0xffff) by (nonlinear_arith)
                requires
                    bs32 <= 0xffff,
                    rp32 <= 0xffff,
            ;
        }
        let size = bs32 * rp32;
        let rem = size % 4;
        let pad: u8 = if rem == 0 {
            0
        } else {
            (4 - rem) as u8
        };

        Ok(Header { fourcc, basetype, basesize, repeats, pad })
    }

    /// Canonical byte width of a base type code (one for unrecognized or
    /// container codes), used only to size slots of complex records.
    pub fn baselen(basetype: &u8) -> (r: u8)
        ensures
            r == spec_baselen(*basetype),
    {
        let b = *basetype;
        if b == 98 || b == 66 || b == 99 || b == 0 || b == 63 {
            1
        } else if b == 115 || b == 83 {
            2
        } else if b == 108 || b == 76 || b == 102 || b == 113 || b == 70 {
            4
        } else if b == 100 || b == 106 || b == 74 || b == 81 {
            8
        } else if b == 85 || b == 71 {
            16
        } else {
            1
        }
    }

    /// A single-slot header for one component of a complex record: the given
    /// base type with its canonical width, everything else kept.
    pub fn convert(&self, basetype: &u8) -> (r: Header)
        ensures
            r.fourcc == self.fourcc,
            r.basetype == *basetype,
            r.basesize == spec_baselen(*basetype),
            r.repeats == self.repeats,
            r.pad == self.pad,
    {
        Header {
            fourcc: self.fourcc.duplicate(),
            basetype: *basetype,
            basesize: Self::baselen(basetype) as u16,
            repeats: self.repeats,
            pad: self.pad,
        }
    }

    /// Whether the header is the all-zero sentinel.
    pub fn is_invalid(&self) -> (r: bool)
        ensures
            r == (self.fourcc matches FourCC::Invalid),
    {
        self.fourcc.is_invalid()
    }

    /// Payload size in bytes; with `aligned` the padding is included.
    pub fn size(&self, aligned: bool) -> (r: u32)
        ensures
            aligned ==> r == self.payload_len() + self.pad,
            !aligned ==> r == self.payload_len(),
    {
        let b = self.basesize as u32;
        let r = self.repeats as u32;
        proof {
            assert(b * r <= 0xffff * 0xffff) by (nonlinear_arith)
                requires
                    b <= 0xffff,
                    r <= 0xffff,
            ;
        }
        let size = b * r;
        if aligned {
            size + self.pad as u32
        } else {
            size
        }
    }

    /// An exact copy; unlike a derived clone, the copy is known to equal the
    /// original.
    pub fn duplicate(&self) -> (r: Self)
        ensures
            r == *self,
    {
        Header {
            fourcc: self.fourcc.duplicate(),
            basetype: self.basetype,
            basesize: self.basesize,
            repeats: self.repeats,
            pad: self.pad,
        }
    }
}

impl Default for Header {
    /// The default header is the sentinel.
    fn default() -> (r: Self)
        ensures
            r == Header::spec_sentinel(),
    {
        Header { fourcc: FourCC::Invalid, basetype: 0, basesize: 0, repeats: 0, pad: 0 }
    }
}

/// Alignment invariant: for any unit size and repeat count, the total on-disk
/// length of a record (eight header bytes, payload, padding) is a multiple of
/// four.
pub proof fn lemma_total_len_aligned(basesize: u16, repeats: u16)
    ensures
        (8 + basesize * repeats + pad_for(basesize * repeats)) % 4 == 0,
{
    let s = basesize as int * repeats as int;
    assert(s >= 0) by (nonlinear_arith)
        requires
            s == basesize as int * repeats as int,
    ;
    assert((8 + s + pad_for(s)) % 4 == 0);
}

} // verus!
