//! Tag registry: four-character identifiers naming GPMF records.
//!
//! Unknown identifiers are kept verbatim as `FourCC::Other`; the all-zero
//! identifier maps to `FourCC::Invalid`, the sentinel that ends a scan of a
//! zero-padded window.

use vstd::prelude::*;

verus! {

/// Four-character identifier naming the semantic role of a GPMF record.
#[derive(Debug, Clone)]
pub enum FourCC {
    DEVC,
    DVID,
    DVNM,
    STRM,
    STNM,
    RMRK,
    SCAL,
    SIUN,
    UNIT,
    TYPE,
    TSMP,
    TIMO,
    EMPT,
    AALP,
    ACCL,
    ALLD,
    CORI,
    DISP,
    FACE,
    FCNM,
    GPS5,
    GPS9,
    GPSF,
    GPSP,
    GPSU,
    GPSA,
    GRAV,
    GYRO,
    HUES,
    IORI,
    ISOE,
    ISOG,
    LSKP,
    MAGN,
    MSKP,
    MWET,
    ORIN,
    ORIO,
    MTRX,
    SCEN,
    SHUT,
    SROT,
    STMP,
    UNIF,
    WBAL,
    WNDM,
    WRGB,
    YAVG,
    MSLV,
    SNOW,
    URBA,
    INDO,
    WATR,
    VEGE,
    BEAC,
    FIRM,
    LENS,
    CAME,
    SETT,
    AMBA,
    MUID,
    HMMT,
    BCID,
    GUMI,
    MINF,
    /// The all-zero identifier: trailing zero-padding, ends a scan.
    Invalid,
    /// An identifier outside the known table, kept verbatim.
    Other(String),
}

/// The named tag, if any, that the four characters spell.
pub open spec fn known_tag(c0: char, c1: char, c2: char, c3: char) -> Option<FourCC> {
    if c0 == 'D' && c1 == 'E' && c2 == 'V' && c3 == 'C' {
        Some(FourCC::DEVC)
    } else if c0 == 'D' && c1 == 'V' && c2 == 'I' && c3 == 'D' {
        Some(FourCC::DVID)
    } else if c0 == 'D' && c1 == 'V' && c2 == 'N' && c3 == 'M' {
        Some(FourCC::DVNM)
    } else if c0 == 'S' && c1 == 'T' && c2 == 'R' && c3 == 'M' {
        Some(FourCC::STRM)
    } else if c0 == 'S' && c1 == 'T' && c2 == 'N' && c3 == 'M' {
        Some(FourCC::STNM)
    } else if c0 == 'R' && c1 == 'M' && c2 == 'R' && c3 == 'K' {
        Some(FourCC::RMRK)
    } else if c0 == 'S' && c1 == 'C' && c2 == 'A' && c3 == 'L' {
        Some(FourCC::SCAL)
    } else if c0 == 'S' && c1 == 'I' && c2 == 'U' && c3 == 'N' {
        Some(FourCC::SIUN)
    } else if c0 == 'U' && c1 == 'N' && c2 == 'I' && c3 == 'T' {
        Some(FourCC::UNIT)
    } else if c0 == 'T' && c1 == 'Y' && c2 == 'P' && c3 == 'E' {
        Some(FourCC::TYPE)
    } else if c0 == 'T' && c1 == 'S' && c2 == 'M' && c3 == 'P' {
        Some(FourCC::TSMP)
    } else if c0 == 'T' && c1 == 'I' && c2 == 'M' && c3 == 'O' {
        Some(FourCC::TIMO)
    } else if c0 == 'E' && c1 == 'M' && c2 == 'P' && c3 == 'T' {
        Some(FourCC::EMPT)
    } else if c0 == 'A' && c1 == 'A' && c2 == 'L' && c3 == 'P' {
        Some(FourCC::AALP)
    } else if c0 == 'A' && c1 == 'C' && c2 == 'C' && c3 == 'L' {
        Some(FourCC::ACCL)
    } else if c0 == 'A' && c1 == 'L' && c2 == 'L' && c3 == 'D' {
        Some(FourCC::ALLD)
    } else if c0 == 'C' && c1 == 'O' && c2 == 'R' && c3 == 'I' {
        Some(FourCC::CORI)
    } else if c0 == 'D' && c1 == 'I' && c2 == 'S' && c3 == 'P' {
        Some(FourCC::DISP)
    } else if c0 == 'F' && c1 == 'A' && c2 == 'C' && c3 == 'E' {
        Some(FourCC::FACE)
    } else if c0 == 'F' && c1 == 'C' && c2 == 'N' && c3 == 'M' {
        Some(FourCC::FCNM)
    } else if c0 == 'G' && c1 == 'P' && c2 == 'S' && c3 == '5' {
        Some(FourCC::GPS5)
    } else if c0 == 'G' && c1 == 'P' && c2 == 'S' && c3 == '9' {
        Some(FourCC::GPS9)
    } else if c0 == 'G' && c1 == 'P' && c2 == 'S' && c3 == 'F' {
        Some(FourCC::GPSF)
    } else if c0 == 'G' && c1 == 'P' && c2 == 'S' && c3 == 'P' {
        Some(FourCC::GPSP)
    } else if c0 == 'G' && c1 == 'P' && c2 == 'S' && c3 == 'U' {
        Some(FourCC::GPSU)
    } else if c0 == 'G' && c1 == 'P' && c2 == 'S' && c3 == 'A' {
        Some(FourCC::GPSA)
    } else if c0 == 'G' && c1 == 'R' && c2 == 'A' && c3 == 'V' {
        Some(FourCC::GRAV)
    } else if c0 == 'G' && c1 == 'Y' && c2 == 'R' && c3 == 'O' {
        Some(FourCC::GYRO)
    } else if c0 == 'H' && c1 == 'U' && c2 == 'E' && c3 == 'S' {
        Some(FourCC::HUES)
    } else if c0 == 'I' && c1 == 'O' && c2 == 'R' && c3 == 'I' {
        Some(FourCC::IORI)
    } else if c0 == 'I' && c1 == 'S' && c2 == 'O' && c3 == 'E' {
        Some(FourCC::ISOE)
    } else if c0 == 'I' && c1 == 'S' && c2 == 'O' && c3 == 'G' {
        Some(FourCC::ISOG)
    } else if c0 == 'L' && c1 == 'S' && c2 == 'K' && c3 == 'P' {
        Some(FourCC::LSKP)
    } else if c0 == 'M' && c1 == 'A' && c2 == 'G' && c3 == 'N' {
        Some(FourCC::MAGN)
    } else if c0 == 'M' && c1 == 'S' && c2 == 'K' && c3 == 'P' {
        Some(FourCC::MSKP)
    } else if c0 == 'M' && c1 == 'W' && c2 == 'E' && c3 == 'T' {
        Some(FourCC::MWET)
    } else if c0 == 'O' && c1 == 'R' && c2 == 'I' && c3 == 'N' {
        Some(FourCC::ORIN)
    } else if c0 == 'O' && c1 == 'R' && c2 == 'I' && c3 == 'O' {
        Some(FourCC::ORIO)
    } else if c0 == 'M' && c1 == 'T' && c2 == 'R' && c3 == 'X' {
        Some(FourCC::MTRX)
    } else if c0 == 'S' && c1 == 'C' && c2 == 'E' && c3 == 'N' {
        Some(FourCC::SCEN)
    } else if c0 == 'S' && c1 == 'H' && c2 == 'U' && c3 == 'T' {
        Some(FourCC::SHUT)
    } else if c0 == 'S' && c1 == 'R' && c2 == 'O' && c3 == 'T' {
        Some(FourCC::SROT)
    } else if c0 == 'S' && c1 == 'T' && c2 == 'M' && c3 == 'P' {
        Some(FourCC::STMP)
    } else if c0 == 'U' && c1 == 'N' && c2 == 'I' && c3 == 'F' {
        Some(FourCC::UNIF)
    } else if c0 == 'W' && c1 == 'B' && c2 == 'A' && c3 == 'L' {
        Some(FourCC::WBAL)
    } else if c0 == 'W' && c1 == 'N' && c2 == 'D' && c3 == 'M' {
        Some(FourCC::WNDM)
    } else if c0 == 'W' && c1 == 'R' && c2 == 'G' && c3 == 'B' {
        Some(FourCC::WRGB)
    } else if c0 == 'Y' && c1 == 'A' && c2 == 'V' && c3 == 'G' {
        Some(FourCC::YAVG)
    } else if c0 == 'M' && c1 == 'S' && c2 == 'L' && c3 == 'V' {
        Some(FourCC::MSLV)
    } else if c0 == 'S' && c1 == 'N' && c2 == 'O' && c3 == 'W' {
        Some(FourCC::SNOW)
    } else if c0 == 'U' && c1 == 'R' && c2 == 'B' && c3 == 'A' {
        Some(FourCC::URBA)
    } else if c0 == 'I' && c1 == 'N' && c2 == 'D' && c3 == 'O' {
        Some(FourCC::INDO)
    } else if c0 == 'W' && c1 == 'A' && c2 == 'T' && c3 == 'R' {
        Some(FourCC::WATR)
    } else if c0 == 'V' && c1 == 'E' && c2 == 'G' && c3 == 'E' {
        Some(FourCC::VEGE)
    } else if c0 == 'B' && c1 == 'E' && c2 == 'A' && c3 == 'C' {
        Some(FourCC::BEAC)
    } else if c0 == 'F' && c1 == 'I' && c2 == 'R' && c3 == 'M' {
        Some(FourCC::FIRM)
    } else if c0 == 'L' && c1 == 'E' && c2 == 'N' && c3 == 'S' {
        Some(FourCC::LENS)
    } else if c0 == 'C' && c1 == 'A' && c2 == 'M' && c3 == 'E' {
        Some(FourCC::CAME)
    } else if c0 == 'S' && c1 == 'E' && c2 == 'T' && c3 == 'T' {
        Some(FourCC::SETT)
    } else if c0 == 'A' && c1 == 'M' && c2 == 'B' && c3 == 'A' {
        Some(FourCC::AMBA)
    } else if c0 == 'M' && c1 == 'U' && c2 == 'I' && c3 == 'D' {
        Some(FourCC::MUID)
    } else if c0 == 'H' && c1 == 'M' && c2 == 'M' && c3 == 'T' {
        Some(FourCC::HMMT)
    } else if c0 == 'B' && c1 == 'C' && c2 == 'I' && c3 == 'D' {
        Some(FourCC::BCID)
    } else if c0 == 'G' && c1 == 'U' && c2 == 'M' && c3 == 'I' {
        Some(FourCC::GUMI)
    } else if c0 == 'M' && c1 == 'I' && c2 == 'N' && c3 == 'F' {
        Some(FourCC::MINF)
    } else {
        None
    }
}

/// What parsing the four characters must yield: a known tag, the all-zero
/// sentinel, or `Other` with exactly those characters.
pub open spec fn parsed_tag(r: FourCC, c0: char, c1: char, c2: char, c3: char) -> bool {
    match known_tag(c0, c1, c2, c3) {
        Some(t) => r == t,
        None => {
            if c0 == '\0' && c1 == '\0' && c2 == '\0' && c3 == '\0' {
                r == FourCC::Invalid
            } else {
                r matches FourCC::Other(s) && s@ == seq![c0, c1, c2, c3]
            }
        },
    }
}

/// Whether two tags are the same: same named tag, both the sentinel, or
/// unknown tags spelling the same characters.
pub open spec fn tag_eq(a: &FourCC, b: &FourCC) -> bool {
    match (a, b) {
        (FourCC::DEVC, FourCC::DEVC) => true,
        (FourCC::DVID, FourCC::DVID) => true,
        (FourCC::DVNM, FourCC::DVNM) => true,
        (FourCC::STRM, FourCC::STRM) => true,
        (FourCC::STNM, FourCC::STNM) => true,
        (FourCC::RMRK, FourCC::RMRK) => true,
        (FourCC::SCAL, FourCC::SCAL) => true,
        (FourCC::SIUN, FourCC::SIUN) => true,
        (FourCC::UNIT, FourCC::UNIT) => true,
        (FourCC::TYPE, FourCC::TYPE) => true,
        (FourCC::TSMP, FourCC::TSMP) => true,
        (FourCC::TIMO, FourCC::TIMO) => true,
        (FourCC::EMPT, FourCC::EMPT) => true,
        (FourCC::AALP, FourCC::AALP) => true,
        (FourCC::ACCL, FourCC::ACCL) => true,
        (FourCC::ALLD, FourCC::ALLD) => true,
        (FourCC::CORI, FourCC::CORI) => true,
        (FourCC::DISP, FourCC::DISP) => true,
        (FourCC::FACE, FourCC::FACE) => true,
        (FourCC::FCNM, FourCC::FCNM) => true,
        (FourCC::GPS5, FourCC::GPS5) => true,
        (FourCC::GPS9, FourCC::GPS9) => true,
        (FourCC::GPSF, FourCC::GPSF) => true,
        (FourCC::GPSP, FourCC::GPSP) => true,
        (FourCC::GPSU, FourCC::GPSU) => true,
        (FourCC::GPSA, FourCC::GPSA) => true,
        (FourCC::GRAV, FourCC::GRAV) => true,
        (FourCC::GYRO, FourCC::GYRO) => true,
        (FourCC::HUES, FourCC::HUES) => true,
        (FourCC::IORI, FourCC::IORI) => true,
        (FourCC::ISOE, FourCC::ISOE) => true,
        (FourCC::ISOG, FourCC::ISOG) => true,
        (FourCC::LSKP, FourCC::LSKP) => true,
        (FourCC::MAGN, FourCC::MAGN) => true,
        (FourCC::MSKP, FourCC::MSKP) => true,
        (FourCC::MWET, FourCC::MWET) => true,
        (FourCC::ORIN, FourCC::ORIN) => true,
        (FourCC::ORIO, FourCC::ORIO) => true,
        (FourCC::MTRX, FourCC::MTRX) => true,
        (FourCC::SCEN, FourCC::SCEN) => true,
        (FourCC::SHUT, FourCC::SHUT) => true,
        (FourCC::SROT, FourCC::SROT) => true,
        (FourCC::STMP, FourCC::STMP) => true,
        (FourCC::UNIF, FourCC::UNIF) => true,
        (FourCC::WBAL, FourCC::WBAL) => true,
        (FourCC::WNDM, FourCC::WNDM) => true,
        (FourCC::WRGB, FourCC::WRGB) => true,
        (FourCC::YAVG, FourCC::YAVG) => true,
        (FourCC::MSLV, FourCC::MSLV) => true,
        (FourCC::SNOW, FourCC::SNOW) => true,
        (FourCC::URBA, FourCC::URBA) => true,
        (FourCC::INDO, FourCC::INDO) => true,
        (FourCC::WATR, FourCC::WATR) => true,
        (FourCC::VEGE, FourCC::VEGE) => true,
        (FourCC::BEAC, FourCC::BEAC) => true,
        (FourCC::FIRM, FourCC::FIRM) => true,
        (FourCC::LENS, FourCC::LENS) => true,
        (FourCC::CAME, FourCC::CAME) => true,
        (FourCC::SETT, FourCC::SETT) => true,
        (FourCC::AMBA, FourCC::AMBA) => true,
        (FourCC::MUID, FourCC::MUID) => true,
        (FourCC::HMMT, FourCC::HMMT) => true,
        (FourCC::BCID, FourCC::BCID) => true,
        (FourCC::GUMI, FourCC::GUMI) => true,
        (FourCC::MINF, FourCC::MINF) => true,
        (FourCC::Invalid, FourCC::Invalid) => true,
        (FourCC::Other(x), FourCC::Other(y)) => x@ == y@,
        _ => false,
    }
}

impl FourCC {

    /// The identifier rendered as characters; `Invalid` renders as a marker
    /// string that no four-character input parses back to.
    pub open spec fn spec_render(&self) -> Seq<char> {
        match self {
            FourCC::DEVC => "DEVC"@,
            FourCC::DVID => "DVID"@,
            FourCC::DVNM => "DVNM"@,
            FourCC::STRM => "STRM"@,
            FourCC::STNM => "STNM"@,
            FourCC::RMRK => "RMRK"@,
            FourCC::SCAL => "SCAL"@,
            FourCC::SIUN => "SIUN"@,
            FourCC::UNIT => "UNIT"@,
            FourCC::TYPE => "TYPE"@,
            FourCC::TSMP => "TSMP"@,
            FourCC::TIMO => "TIMO"@,
            FourCC::EMPT => "EMPT"@,
            FourCC::AALP => "AALP"@,
            FourCC::ACCL => "ACCL"@,
            FourCC::ALLD => "ALLD"@,
            FourCC::CORI => "CORI"@,
            FourCC::DISP => "DISP"@,
            FourCC::FACE => "FACE"@,
            FourCC::FCNM => "FCNM"@,
            FourCC::GPS5 => "GPS5"@,
            FourCC::GPS9 => "GPS9"@,
            FourCC::GPSF => "GPSF"@,
            FourCC::GPSP => "GPSP"@,
            FourCC::GPSU => "GPSU"@,
            FourCC::GPSA => "GPSA"@,
            FourCC::GRAV => "GRAV"@,
            FourCC::GYRO => "GYRO"@,
            FourCC::HUES => "HUES"@,
            FourCC::IORI => "IORI"@,
            FourCC::ISOE => "ISOE"@,
            FourCC::ISOG => "ISOG"@,
            FourCC::LSKP => "LSKP"@,
            FourCC::MAGN => "MAGN"@,
            FourCC::MSKP => "MSKP"@,
            FourCC::MWET => "MWET"@,
            FourCC::ORIN => "ORIN"@,
            FourCC::ORIO => "ORIO"@,
            FourCC::MTRX => "MTRX"@,
            FourCC::SCEN => "SCEN"@,
            FourCC::SHUT => "SHUT"@,
            FourCC::SROT => "SROT"@,
            FourCC::STMP => "STMP"@,
            FourCC::UNIF => "UNIF"@,
            FourCC::WBAL => "WBAL"@,
            FourCC::WNDM => "WNDM"@,
            FourCC::WRGB => "WRGB"@,
            FourCC::YAVG => "YAVG"@,
            FourCC::MSLV => "MSLV"@,
            FourCC::SNOW => "SNOW"@,
            FourCC::URBA => "URBA"@,
            FourCC::INDO => "INDO"@,
            FourCC::WATR => "WATR"@,
            FourCC::VEGE => "VEGE"@,
            FourCC::BEAC => "BEAC"@,
            FourCC::FIRM => "FIRM"@,
            FourCC::LENS => "LENS"@,
            FourCC::CAME => "CAME"@,
            FourCC::SETT => "SETT"@,
            FourCC::AMBA => "AMBA"@,
            FourCC::MUID => "MUID"@,
            FourCC::HMMT => "HMMT"@,
            FourCC::BCID => "BCID"@,
            FourCC::GUMI => "GUMI"@,
            FourCC::MINF => "MINF"@,
            FourCC::Invalid => "INVALID_FOURCC"@,
            FourCC::Other(s) => s@,
        }
    }

    /// Whether the tag is one of the named table entries.
    pub open spec fn is_known(&self) -> bool {
        !(self matches FourCC::Invalid) && !(self matches FourCC::Other(_))
    }

    /// Parse four characters into a tag.
    fn from_chars(c0: char, c1: char, c2: char, c3: char, raw: String) -> (r: FourCC)
        requires
            raw@ == seq![c0, c1, c2, c3],
        ensures
            parsed_tag(r, c0, c1, c2, c3),
    {
        if c0 == '\0' && c1 == '\0' && c2 == '\0' && c3 == '\0' {
            FourCC::Invalid
        } else if c0 == 'D' && c1 == 'E' && c2 == 'V' && c3 == 'C' {
            FourCC::DEVC
        } else if c0 == 'D' && c1 == 'V' && c2 == 'I' && c3 == 'D' {
            FourCC::DVID
        } else if c0 == 'D' && c1 == 'V' && c2 == 'N' && c3 == 'M' {
            FourCC::DVNM
        } else if c0 == 'S' && c1 == 'T' && c2 == 'R' && c3 == 'M' {
            FourCC::STRM
        } else if c0 == 'S' && c1 == 'T' && c2 == 'N' && c3 == 'M' {
            FourCC::STNM
        } else if c0 == 'R' && c1 == 'M' && c2 == 'R' && c3 == 'K' {
            FourCC::RMRK
        } else if c0 == 'S' && c1 == 'C' && c2 == 'A' && c3 == 'L' {
            FourCC::SCAL
        } else if c0 == 'S' && c1 == 'I' && c2 == 'U' && c3 == 'N' {
            FourCC::SIUN
        } else if c0 == 'U' && c1 == 'N' && c2 == 'I' && c3 == 'T' {
            FourCC::UNIT
        } else if c0 == 'T' && c1 == 'Y' && c2 == 'P' && c3 == 'E' {
            FourCC::TYPE
        } else if c0 == 'T' && c1 == 'S' && c2 == 'M' && c3 == 'P' {
            FourCC::TSMP
        } else if c0 == 'T' && c1 == 'I' && c2 == 'M' && c3 == 'O' {
            FourCC::TIMO
        } else if c0 == 'E' && c1 == 'M' && c2 == 'P' && c3 == 'T' {
            FourCC::EMPT
        } else if c0 == 'A' && c1 == 'A' && c2 == 'L' && c3 == 'P' {
            FourCC::AALP
        } else if c0 == 'A' && c1 == 'C' && c2 == 'C' && c3 == 'L' {
            FourCC::ACCL
        } else if c0 == 'A' && c1 == 'L' && c2 == 'L' && c3 == 'D' {
            FourCC::ALLD
        } else if c0 == 'C' && c1 == 'O' && c2 == 'R' && c3 == 'I' {
            FourCC::CORI
        } else if c0 == 'D' && c1 == 'I' && c2 == 'S' && c3 == 'P' {
            FourCC::DISP
        } else if c0 == 'F' && c1 == 'A' && c2 == 'C' && c3 == 'E' {
            FourCC::FACE
        } else if c0 == 'F' && c1 == 'C' && c2 == 'N' && c3 == 'M' {
            FourCC::FCNM
        } else if c0 == 'G' && c1 == 'P' && c2 == 'S' && c3 == '5' {
            FourCC::GPS5
        } else if c0 == 'G' && c1 == 'P' && c2 == 'S' && c3 == '9' {
            FourCC::GPS9
        } else if c0 == 'G' && c1 == 'P' && c2 == 'S' && c3 == 'F' {
            FourCC::GPSF
        } else if c0 == 'G' && c1 == 'P' && c2 == 'S' && c3 == 'P' {
            FourCC::GPSP
        } else if c0 == 'G' && c1 == 'P' && c2 == 'S' && c3 == 'U' {
            FourCC::GPSU
        } else if c0 == 'G' && c1 == 'P' && c2 == 'S' && c3 == 'A' {
            FourCC::GPSA
        } else if c0 == 'G' && c1 == 'R' && c2 == 'A' && c3 == 'V' {
            FourCC::GRAV
        } else if c0 == 'G' && c1 == 'Y' && c2 == 'R' && c3 == 'O' {
            FourCC::GYRO
        } else if c0 == 'H' && c1 == 'U' && c2 == 'E' && c3 == 'S' {
            FourCC::HUES
        } else if c0 == 'I' && c1 == 'O' && c2 == 'R' && c3 == 'I' {
            FourCC::IORI
        } else if c0 == 'I' && c1 == 'S' && c2 == 'O' && c3 == 'E' {
            FourCC::ISOE
        } else if c0 == 'I' && c1 == 'S' && c2 == 'O' && c3 == 'G' {
            FourCC::ISOG
        } else if c0 == 'L' && c1 == 'S' && c2 == 'K' && c3 == 'P' {
            FourCC::LSKP
        } else if c0 == 'M' && c1 == 'A' && c2 == 'G' && c3 == 'N' {
            FourCC::MAGN
        } else if c0 == 'M' && c1 == 'S' && c2 == 'K' && c3 == 'P' {
            FourCC::MSKP
        } else if c0 == 'M' && c1 == 'W' && c2 == 'E' && c3 == 'T' {
            FourCC::MWET
        } else if c0 == 'O' && c1 == 'R' && c2 == 'I' && c3 == 'N' {
            FourCC::ORIN
        } else if c0 == 'O' && c1 == 'R' && c2 == 'I' && c3 == 'O' {
            FourCC::ORIO
        } else if c0 == 'M' && c1 == 'T' && c2 == 'R' && c3 == 'X' {
            FourCC::MTRX
        } else if c0 == 'S' && c1 == 'C' && c2 == 'E' && c3 == 'N' {
            FourCC::SCEN
        } else if c0 == 'S' && c1 == 'H' && c2 == 'U' && c3 == 'T' {
            FourCC::SHUT
        } else if c0 == 'S' && c1 == 'R' && c2 == 'O' && c3 == 'T' {
            FourCC::SROT
        } else if c0 == 'S' && c1 == 'T' && c2 == 'M' && c3 == 'P' {
            FourCC::STMP
        } else if c0 == 'U' && c1 == 'N' && c2 == 'I' && c3 == 'F' {
            FourCC::UNIF
        } else if c0 == 'W' && c1 == 'B' && c2 == 'A' && c3 == 'L' {
            FourCC::WBAL
        } else if c0 == 'W' && c1 == 'N' && c2 == 'D' && c3 == 'M' {
            FourCC::WNDM
        } else if c0 == 'W' && c1 == 'R' && c2 == 'G' && c3 == 'B' {
            FourCC::WRGB
        } else if c0 == 'Y' && c1 == 'A' && c2 == 'V' && c3 == 'G' {
            FourCC::YAVG
        } else if c0 == 'M' && c1 == 'S' && c2 == 'L' && c3 == 'V' {
            FourCC::MSLV
        } else if c0 == 'S' && c1 == 'N' && c2 == 'O' && c3 == 'W' {
            FourCC::SNOW
        } else if c0 == 'U' && c1 == 'R' && c2 == 'B' && c3 == 'A' {
            FourCC::URBA
        } else if c0 == 'I' && c1 == 'N' && c2 == 'D' && c3 == 'O' {
            FourCC::INDO
        } else if c0 == 'W' && c1 == 'A' && c2 == 'T' && c3 == 'R' {
            FourCC::WATR
        } else if c0 == 'V' && c1 == 'E' && c2 == 'G' && c3 == 'E' {
            FourCC::VEGE
        } else if c0 == 'B' && c1 == 'E' && c2 == 'A' && c3 == 'C' {
            FourCC::BEAC
        } else if c0 == 'F' && c1 == 'I' && c2 == 'R' && c3 == 'M' {
            FourCC::FIRM
        } else if c0 == 'L' && c1 == 'E' && c2 == 'N' && c3 == 'S' {
            FourCC::LENS
        } else if c0 == 'C' && c1 == 'A' && c2 == 'M' && c3 == 'E' {
            FourCC::CAME
        } else if c0 == 'S' && c1 == 'E' && c2 == 'T' && c3 == 'T' {
            FourCC::SETT
        } else if c0 == 'A' && c1 == 'M' && c2 == 'B' && c3 == 'A' {
            FourCC::AMBA
        } else if c0 == 'M' && c1 == 'U' && c2 == 'I' && c3 == 'D' {
            FourCC::MUID
        } else if c0 == 'H' && c1 == 'M' && c2 == 'M' && c3 == 'T' {
            FourCC::HMMT
        } else if c0 == 'B' && c1 == 'C' && c2 == 'I' && c3 == 'D' {
            FourCC::BCID
        } else if c0 == 'G' && c1 == 'U' && c2 == 'M' && c3 == 'I' {
            FourCC::GUMI
        } else if c0 == 'M' && c1 == 'I' && c2 == 'N' && c3 == 'F' {
            FourCC::MINF
        } else {
            FourCC::Other(raw)
        }
    }

    /// Parse a four-character string into a tag.
    pub fn from_str(fourcc: &str) -> (r: FourCC)
        requires
            fourcc@.len() == 4,
        ensures
            parsed_tag(r, fourcc@[0], fourcc@[1], fourcc@[2], fourcc@[3]),
    {
        let c0 = fourcc.get_char(0);
        let c1 = fourcc.get_char(1);
        let c2 = fourcc.get_char(2);
        let c3 = fourcc.get_char(3);
        let raw = fourcc.to_owned();
        proof {
            assert(raw@ =~= seq![c0, c1, c2, c3]);
        }
        Self::from_chars(c0, c1, c2, c3, raw)
    }
}

/// A byte of the window, or zero past its end.
pub open spec fn byte_or_zero(data: Seq<u8>, i: int) -> u8 {
    if 0 <= i < data.len() {
        data[i]
    } else {
        0
    }
}

impl FourCC {
    /// Parse four bytes into a tag; each byte stands for one character.
    pub fn from_slice(slice: &[u8]) -> (r: FourCC)
        requires
            slice@.len() == 4,
        ensures
            parsed_tag(r, slice@[0] as char, slice@[1] as char, slice@[2] as char, slice@[3] as char),
    {
        let c0 = slice[0] as char;
        let c1 = slice[1] as char;
        let c2 = slice[2] as char;
        let c3 = slice[3] as char;
        let mut raw = String::new();
        crate::chars::push_char(&mut raw, c0);
        crate::chars::push_char(&mut raw, c1);
        crate::chars::push_char(&mut raw, c2);
        crate::chars::push_char(&mut raw, c3);
        proof {
            assert(raw@ =~= seq![c0, c1, c2, c3]);
        }
        Self::from_chars(c0, c1, c2, c3, raw)
    }

    /// Read the four identifier bytes at `pos`, zero-extending a short tail,
    /// and parse them into a tag.
    pub fn new(data: &[u8], pos: usize) -> (r: FourCC)
        requires
            pos <= data@.len(),
        ensures
            parsed_tag(
                r,
                byte_or_zero(data@, pos as int) as char,
                byte_or_zero(data@, pos as int + 1) as char,
                byte_or_zero(data@, pos as int + 2) as char,
                byte_or_zero(data@, pos as int + 3) as char,
            ),
    {
        let rem = data.len() - pos;
        let b0 = if rem > 0 { data[pos] } else { 0 };
        let b1 = if rem > 1 { data[pos + 1] } else { 0 };
        let b2 = if rem > 2 { data[pos + 2] } else { 0 };
        let b3 = if rem > 3 { data[pos + 3] } else { 0 };
        let c0 = b0 as char;
        let c1 = b1 as char;
        let c2 = b2 as char;
        let c3 = b3 as char;
        let mut raw = String::new();
        crate::chars::push_char(&mut raw, c0);
        crate::chars::push_char(&mut raw, c1);
        crate::chars::push_char(&mut raw, c2);
        crate::chars::push_char(&mut raw, c3);
        proof {
            assert(raw@ =~= seq![c0, c1, c2, c3]);
        }
        Self::from_chars(c0, c1, c2, c3, raw)
    }

    /// Render the tag as its four-character string.
    pub fn to_str(&self) -> (r: &str)
        ensures
            r@ == self.spec_render(),
    {
        match self {
            FourCC::DEVC => "DEVC",
            FourCC::DVID => "DVID",
            FourCC::DVNM => "DVNM",
            FourCC::STRM => "STRM",
            FourCC::STNM => "STNM",
            FourCC::RMRK => "RMRK",
            FourCC::SCAL => "SCAL",
            FourCC::SIUN => "SIUN",
            FourCC::UNIT => "UNIT",
            FourCC::TYPE => "TYPE",
            FourCC::TSMP => "TSMP",
            FourCC::TIMO => "TIMO",
            FourCC::EMPT => "EMPT",
            FourCC::AALP => "AALP",
            FourCC::ACCL => "ACCL",
            FourCC::ALLD => "ALLD",
            FourCC::CORI => "CORI",
            FourCC::DISP => "DISP",
            FourCC::FACE => "FACE",
            FourCC::FCNM => "FCNM",
            FourCC::GPS5 => "GPS5",
            FourCC::GPS9 => "GPS9",
            FourCC::GPSF => "GPSF",
            FourCC::GPSP => "GPSP",
            FourCC::GPSU => "GPSU",
            FourCC::GPSA => "GPSA",
            FourCC::GRAV => "GRAV",
            FourCC::GYRO => "GYRO",
            FourCC::HUES => "HUES",
            FourCC::IORI => "IORI",
            FourCC::ISOE => "ISOE",
            FourCC::ISOG => "ISOG",
            FourCC::LSKP => "LSKP",
            FourCC::MAGN => "MAGN",
            FourCC::MSKP => "MSKP",
            FourCC::MWET => "MWET",
            FourCC::ORIN => "ORIN",
            FourCC::ORIO => "ORIO",
            FourCC::MTRX => "MTRX",
            FourCC::SCEN => "SCEN",
            FourCC::SHUT => "SHUT",
            FourCC::SROT => "SROT",
            FourCC::STMP => "STMP",
            FourCC::UNIF => "UNIF",
            FourCC::WBAL => "WBAL",
            FourCC::WNDM => "WNDM",
            FourCC::WRGB => "WRGB",
            FourCC::YAVG => "YAVG",
            FourCC::MSLV => "MSLV",
            FourCC::SNOW => "SNOW",
            FourCC::URBA => "URBA",
            FourCC::INDO => "INDO",
            FourCC::WATR => "WATR",
            FourCC::VEGE => "VEGE",
            FourCC::BEAC => "BEAC",
            FourCC::FIRM => "FIRM",
            FourCC::LENS => "LENS",
            FourCC::CAME => "CAME",
            FourCC::SETT => "SETT",
            FourCC::AMBA => "AMBA",
            FourCC::MUID => "MUID",
            FourCC::HMMT => "HMMT",
            FourCC::BCID => "BCID",
            FourCC::GUMI => "GUMI",
            FourCC::MINF => "MINF",
            FourCC::Invalid => "INVALID_FOURCC",
            FourCC::Other(s) => s.as_str(),
        }
    }

    /// Whether the tag is the all-zero sentinel.
    pub fn is_invalid(&self) -> (r: bool)
        ensures
            r == (self matches FourCC::Invalid),
    {
        match self {
            FourCC::Invalid => true,
            _ => false,
        }
    }
}

impl Default for FourCC {
    /// The default tag is the sentinel.
    fn default() -> (r: Self)
        ensures
            r == FourCC::Invalid,
    {
        FourCC::Invalid
    }
}

impl PartialEq for FourCC {
    #[verifier::rlimit(100)]
    fn eq(&self, other: &Self) -> (r: bool) {
        match (self, other) {
            (FourCC::DEVC, FourCC::DEVC) => true,
            (FourCC::DVID, FourCC::DVID) => true,
            (FourCC::DVNM, FourCC::DVNM) => true,
            (FourCC::STRM, FourCC::STRM) => true,
            (FourCC::STNM, FourCC::STNM) => true,
            (FourCC::RMRK, FourCC::RMRK) => true,
            (FourCC::SCAL, FourCC::SCAL) => true,
            (FourCC::SIUN, FourCC::SIUN) => true,
            (FourCC::UNIT, FourCC::UNIT) => true,
            (FourCC::TYPE, FourCC::TYPE) => true,
            (FourCC::TSMP, FourCC::TSMP) => true,
            (FourCC::TIMO, FourCC::TIMO) => true,
            (FourCC::EMPT, FourCC::EMPT) => true,
            (FourCC::AALP, FourCC::AALP) => true,
            (FourCC::ACCL, FourCC::ACCL) => true,
            (FourCC::ALLD, FourCC::ALLD) => true,
            (FourCC::CORI, FourCC::CORI) => true,
            (FourCC::DISP, FourCC::DISP) => true,
            (FourCC::FACE, FourCC::FACE) => true,
            (FourCC::FCNM, FourCC::FCNM) => true,
            (FourCC::GPS5, FourCC::GPS5) => true,
            (FourCC::GPS9, FourCC::GPS9) => true,
            (FourCC::GPSF, FourCC::GPSF) => true,
            (FourCC::GPSP, FourCC::GPSP) => true,
            (FourCC::GPSU, FourCC::GPSU) => true,
            (FourCC::GPSA, FourCC::GPSA) => true,
            (FourCC::GRAV, FourCC::GRAV) => true,
            (FourCC::GYRO, FourCC::GYRO) => true,
            (FourCC::HUES, FourCC::HUES) => true,
            (FourCC::IORI, FourCC::IORI) => true,
            (FourCC::ISOE, FourCC::ISOE) => true,
            (FourCC::ISOG, FourCC::ISOG) => true,
            (FourCC::LSKP, FourCC::LSKP) => true,
            (FourCC::MAGN, FourCC::MAGN) => true,
            (FourCC::MSKP, FourCC::MSKP) => true,
            (FourCC::MWET, FourCC::MWET) => true,
            (FourCC::ORIN, FourCC::ORIN) => true,
            (FourCC::ORIO, FourCC::ORIO) => true,
            (FourCC::MTRX, FourCC::MTRX) => true,
            (FourCC::SCEN, FourCC::SCEN) => true,
            (FourCC::SHUT, FourCC::SHUT) => true,
            (FourCC::SROT, FourCC::SROT) => true,
            (FourCC::STMP, FourCC::STMP) => true,
            (FourCC::UNIF, FourCC::UNIF) => true,
            (FourCC::WBAL, FourCC::WBAL) => true,
            (FourCC::WNDM, FourCC::WNDM) => true,
            (FourCC::WRGB, FourCC::WRGB) => true,
            (FourCC::YAVG, FourCC::YAVG) => true,
            (FourCC::MSLV, FourCC::MSLV) => true,
            (FourCC::SNOW, FourCC::SNOW) => true,
            (FourCC::URBA, FourCC::URBA) => true,
            (FourCC::INDO, FourCC::INDO) => true,
            (FourCC::WATR, FourCC::WATR) => true,
            (FourCC::VEGE, FourCC::VEGE) => true,
            (FourCC::BEAC, FourCC::BEAC) => true,
            (FourCC::FIRM, FourCC::FIRM) => true,
            (FourCC::LENS, FourCC::LENS) => true,
            (FourCC::CAME, FourCC::CAME) => true,
            (FourCC::SETT, FourCC::SETT) => true,
            (FourCC::AMBA, FourCC::AMBA) => true,
            (FourCC::MUID, FourCC::MUID) => true,
            (FourCC::HMMT, FourCC::HMMT) => true,
            (FourCC::BCID, FourCC::BCID) => true,
            (FourCC::GUMI, FourCC::GUMI) => true,
            (FourCC::MINF, FourCC::MINF) => true,
            (FourCC::Invalid, FourCC::Invalid) => true,
            (FourCC::Other(a), FourCC::Other(b)) => a.eq(b),
            _ => false,
        }
    }
}

impl Eq for FourCC {}

impl vstd::std_specs::cmp::PartialEqSpecImpl for FourCC {
    open spec fn obeys_eq_spec() -> bool {
        true
    }

    open spec fn eq_spec(&self, other: &Self) -> bool {
        tag_eq(self, other)
    }
}

/// Round trip: parsing the rendered form of any known tag yields that tag.
pub proof fn lemma_tag_round_trip(t: FourCC)
    requires
        t.is_known(),
    ensures
        t.spec_render().len() == 4,
        known_tag(
            t.spec_render()[0],
            t.spec_render()[1],
            t.spec_render()[2],
            t.spec_render()[3],
        ) == Some(t),
{
    match t {
        FourCC::DEVC => {
            reveal_strlit("DEVC");
        }
        FourCC::DVID => {
            reveal_strlit("DVID");
        }
        FourCC::DVNM => {
            reveal_strlit("DVNM");
        }
        FourCC::STRM => {
            reveal_strlit("STRM");
        }
        FourCC::STNM => {
            reveal_strlit("STNM");
        }
        FourCC::RMRK => {
            reveal_strlit("RMRK");
        }
        FourCC::SCAL => {
            reveal_strlit("SCAL");
        }
        FourCC::SIUN => {
            reveal_strlit("SIUN");
        }
        FourCC::UNIT => {
            reveal_strlit("UNIT");
        }
        FourCC::TYPE => {
            reveal_strlit("TYPE");
        }
        FourCC::TSMP => {
            reveal_strlit("TSMP");
        }
        FourCC::TIMO => {
            reveal_strlit("TIMO");
        }
        FourCC::EMPT => {
            reveal_strlit("EMPT");
        }
        FourCC::AALP => {
            reveal_strlit("AALP");
        }
        FourCC::ACCL => {
            reveal_strlit("ACCL");
        }
        FourCC::ALLD => {
            reveal_strlit("ALLD");
        }
        FourCC::CORI => {
            reveal_strlit("CORI");
        }
        FourCC::DISP => {
            reveal_strlit("DISP");
        }
        FourCC::FACE => {
            reveal_strlit("FACE");
        }
        FourCC::FCNM => {
            reveal_strlit("FCNM");
        }
        FourCC::GPS5 => {
            reveal_strlit("GPS5");
        }
        FourCC::GPS9 => {
            reveal_strlit("GPS9");
        }
        FourCC::GPSF => {
            reveal_strlit("GPSF");
        }
        FourCC::GPSP => {
            reveal_strlit("GPSP");
        }
        FourCC::GPSU => {
            reveal_strlit("GPSU");
        }
        FourCC::GPSA => {
            reveal_strlit("GPSA");
        }
        FourCC::GRAV => {
            reveal_strlit("GRAV");
        }
        FourCC::GYRO => {
            reveal_strlit("GYRO");
        }
        FourCC::HUES => {
            reveal_strlit("HUES");
        }
        FourCC::IORI => {
            reveal_strlit("IORI");
        }
        FourCC::ISOE => {
            reveal_strlit("ISOE");
        }
        FourCC::ISOG => {
            reveal_strlit("ISOG");
        }
        FourCC::LSKP => {
            reveal_strlit("LSKP");
        }
        FourCC::MAGN => {
            reveal_strlit("MAGN");
        }
        FourCC::MSKP => {
            reveal_strlit("MSKP");
        }
        FourCC::MWET => {
            reveal_strlit("MWET");
        }
        FourCC::ORIN => {
            reveal_strlit("ORIN");
        }
        FourCC::ORIO => {
            reveal_strlit("ORIO");
        }
        FourCC::MTRX => {
            reveal_strlit("MTRX");
        }
        FourCC::SCEN => {
            reveal_strlit("SCEN");
        }
        FourCC::SHUT => {
            reveal_strlit("SHUT");
        }
        FourCC::SROT => {
            reveal_strlit("SROT");
        }
        FourCC::STMP => {
            reveal_strlit("STMP");
        }
        FourCC::UNIF => {
            reveal_strlit("UNIF");
        }
        FourCC::WBAL => {
            reveal_strlit("WBAL");
        }
        FourCC::WNDM => {
            reveal_strlit("WNDM");
        }
        FourCC::WRGB => {
            reveal_strlit("WRGB");
        }
        FourCC::YAVG => {
            reveal_strlit("YAVG");
        }
        FourCC::MSLV => {
            reveal_strlit("MSLV");
        }
        FourCC::SNOW => {
            reveal_strlit("SNOW");
        }
        FourCC::URBA => {
            reveal_strlit("URBA");
        }
        FourCC::INDO => {
            reveal_strlit("INDO");
        }
        FourCC::WATR => {
            reveal_strlit("WATR");
        }
        FourCC::VEGE => {
            reveal_strlit("VEGE");
        }
        FourCC::BEAC => {
            reveal_strlit("BEAC");
        }
        FourCC::FIRM => {
            reveal_strlit("FIRM");
        }
        FourCC::LENS => {
            reveal_strlit("LENS");
        }
        FourCC::CAME => {
            reveal_strlit("CAME");
        }
        FourCC::SETT => {
            reveal_strlit("SETT");
        }
        FourCC::AMBA => {
            reveal_strlit("AMBA");
        }
        FourCC::MUID => {
            reveal_strlit("MUID");
        }
        FourCC::HMMT => {
            reveal_strlit("HMMT");
        }
        FourCC::BCID => {
            reveal_strlit("BCID");
        }
        FourCC::GUMI => {
            reveal_strlit("GUMI");
        }
        FourCC::MINF => {
            reveal_strlit("MINF");
        }
        _ => {
        }
    }
}

impl FourCC {
    /// An exact copy; unlike a derived clone, the copy is known to equal
    /// the original.
    pub fn duplicate(&self) -> (r: Self)
        ensures
            r == *self,
    {
        match self {
            FourCC::DEVC => FourCC::DEVC,
            FourCC::DVID => FourCC::DVID,
            FourCC::DVNM => FourCC::DVNM,
            FourCC::STRM => FourCC::STRM,
            FourCC::STNM => FourCC::STNM,
            FourCC::RMRK => FourCC::RMRK,
            FourCC::SCAL => FourCC::SCAL,
            FourCC::SIUN => FourCC::SIUN,
            FourCC::UNIT => FourCC::UNIT,
            FourCC::TYPE => FourCC::TYPE,
            FourCC::TSMP => FourCC::TSMP,
            FourCC::TIMO => FourCC::TIMO,
            FourCC::EMPT => FourCC::EMPT,
            FourCC::AALP => FourCC::AALP,
            FourCC::ACCL => FourCC::ACCL,
            FourCC::ALLD => FourCC::ALLD,
            FourCC::CORI => FourCC::CORI,
            FourCC::DISP => FourCC::DISP,
            FourCC::FACE => FourCC::FACE,
            FourCC::FCNM => FourCC::FCNM,
            FourCC::GPS5 => FourCC::GPS5,
            FourCC::GPS9 => FourCC::GPS9,
            FourCC::GPSF => FourCC::GPSF,
            FourCC::GPSP => FourCC::GPSP,
            FourCC::GPSU => FourCC::GPSU,
            FourCC::GPSA => FourCC::GPSA,
            FourCC::GRAV => FourCC::GRAV,
            FourCC::GYRO => FourCC::GYRO,
            FourCC::HUES => FourCC::HUES,
            FourCC::IORI => FourCC::IORI,
            FourCC::ISOE => FourCC::ISOE,
            FourCC::ISOG => FourCC::ISOG,
            FourCC::LSKP => FourCC::LSKP,
            FourCC::MAGN => FourCC::MAGN,
            FourCC::MSKP => FourCC::MSKP,
            FourCC::MWET => FourCC::MWET,
            FourCC::ORIN => FourCC::ORIN,
            FourCC::ORIO => FourCC::ORIO,
            FourCC::MTRX => FourCC::MTRX,
            FourCC::SCEN => FourCC::SCEN,
            FourCC::SHUT => FourCC::SHUT,
            FourCC::SROT => FourCC::SROT,
            FourCC::STMP => FourCC::STMP,
            FourCC::UNIF => FourCC::UNIF,
            FourCC::WBAL => FourCC::WBAL,
            FourCC::WNDM => FourCC::WNDM,
            FourCC::WRGB => FourCC::WRGB,
            FourCC::YAVG => FourCC::YAVG,
            FourCC::MSLV => FourCC::MSLV,
            FourCC::SNOW => FourCC::SNOW,
            FourCC::URBA => FourCC::URBA,
            FourCC::INDO => FourCC::INDO,
            FourCC::WATR => FourCC::WATR,
            FourCC::VEGE => FourCC::VEGE,
            FourCC::BEAC => FourCC::BEAC,
            FourCC::FIRM => FourCC::FIRM,
            FourCC::LENS => FourCC::LENS,
            FourCC::CAME => FourCC::CAME,
            FourCC::SETT => FourCC::SETT,
            FourCC::AMBA => FourCC::AMBA,
            FourCC::MUID => FourCC::MUID,
            FourCC::HMMT => FourCC::HMMT,
            FourCC::BCID => FourCC::BCID,
            FourCC::GUMI => FourCC::GUMI,
            FourCC::MINF => FourCC::MINF,
            FourCC::Invalid => FourCC::Invalid,
            FourCC::Other(s) => FourCC::Other(s.clone()),
        }
    }
}

} // verus!
