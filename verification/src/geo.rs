//! PostGIS `geography` points: decoding their EWKB form and writing
//! them as JSON.
use vstd::prelude::*;
use crate::text::same_text;

verus! {

/// A point of longitude and latitude, each held as the bits of an IEEE
/// 754 double, with the spatial reference id when the encoding has one.
#[derive(Debug, PartialEq, Eq, Structural)]
pub struct LongLat {
    /// Bits of the longitude.
    pub long_bits: u64,
    /// Bits of the latitude.
    pub lat_bits: u64,
    /// Spatial reference id.
    pub srid: Option<i32>,
}

/// Why EWKB bytes were not read as a point.
#[derive(Debug, PartialEq, Eq, Structural)]
pub enum EwkbError {
    /// The bytes end before the point does.
    Truncated,
    /// The geometry type (the low byte of this type word) is not a point.
    UnsupportedGeometry(u32),
}

/// The little-endian `u32` at `raw[at..at + 4]`.
pub open spec fn le_u32(raw: Seq<u8>, at: int) -> u32 {
    (raw[at] + raw[at + 1] * 0x100 + raw[at + 2] * 0x1_0000 + raw[at + 3] * 0x100_0000) as u32
}

/// The little-endian `u64` at `raw[at..at + 8]`.
pub open spec fn le_u64(raw: Seq<u8>, at: int) -> u64 {
    (raw[at] + raw[at + 1] * 0x100 + raw[at + 2] * 0x1_0000 + raw[at + 3] * 0x100_0000 + raw[at
        + 4] * 0x1_0000_0000 + raw[at + 5] * 0x100_0000_0000 + raw[at + 6] * 0x1_0000_0000_0000
        + raw[at + 7] * 0x100_0000_0000_0000) as u64
}

/// The two's complement reading of `u` (`i32::from_le_bytes` of its bytes).
pub open spec fn as_i32(u: u32) -> i32 {
    if u < 0x8000_0000 {
        u as i32
    } else {
        (u - 0x1_0000_0000) as i32
    }
}

/// Whether an EWKB type word announces a spatial reference id.
pub open spec fn has_srid(type_id: u32) -> bool {
    type_id & 0x2000_0000 == 0x2000_0000
}

/// Where the coordinates start for this type word.
pub open spec fn coords_at(type_id: u32) -> int {
    if has_srid(type_id) {
        9
    } else {
        5
    }
}

/// The point that EWKB bytes `raw` encode: a byte-order byte (not
/// consulted: all words are read little-endian), the type word, the
/// spatial reference id when the type word has its flag, then longitude
/// and latitude; the low byte of the type word must be 1 (a point).
pub open spec fn ewkb_point_spec(raw: Seq<u8>) -> Result<LongLat, EwkbError> {
    if raw.len() < 5 {
        Err(EwkbError::Truncated)
    } else {
        let t = le_u32(raw, 1);
        let at = coords_at(t);
        if raw.len() < at + 16 {
            Err(EwkbError::Truncated)
        } else if t & 0xff != 1 {
            Err(EwkbError::UnsupportedGeometry(t))
        } else {
            Ok(
                LongLat {
                    long_bits: le_u64(raw, at),
                    lat_bits: le_u64(raw, at + 8),
                    srid: if has_srid(t) {
                        Some(as_i32(le_u32(raw, 5)))
                    } else {
                        None
                    },
                },
            )
        }
    }
}

fn read_u32_le(raw: &[u8], at: usize) -> (r: u32)
    requires
        at + 4 <= raw@.len(),
    ensures
        r == le_u32(raw@, at as int),
{
    (raw[at] as u32) + (raw[at + 1] as u32) * 0x100 + (raw[at + 2] as u32) * 0x1_0000 + (raw[at
        + 3] as u32) * 0x100_0000
}

fn read_u64_le(raw: &[u8], at: usize) -> (r: u64)
    requires
        at + 8 <= raw@.len(),
    ensures
        r == le_u64(raw@, at as int),
{
    (raw[at] as u64) + (raw[at + 1] as u64) * 0x100 + (raw[at + 2] as u64) * 0x1_0000 + (raw[at
        + 3] as u64) * 0x100_0000 + (raw[at + 4] as u64) * 0x1_0000_0000 + (raw[at + 5] as u64)
        * 0x100_0000_0000 + (raw[at + 6] as u64) * 0x1_0000_0000_0000 + (raw[at + 7] as u64)
        * 0x100_0000_0000_0000
}

fn to_i32(u: u32) -> (r: i32)
    ensures
        r == as_i32(u),
{
    if u < 0x8000_0000 {
        u as i32
    } else {
        ((u - 0x8000_0000) as i32) - 0x7fff_ffff - 1
    }
}

impl LongLat {
    /// The point with these coordinate bits and reference id.
    pub fn new(long_bits: u64, lat_bits: u64, srid: Option<i32>) -> (r: LongLat)
        ensures
            r == (LongLat { long_bits, lat_bits, srid }),
    {
        LongLat { long_bits, lat_bits, srid }
    }

    /// Decodes the EWKB form of a point (see [`ewkb_point_spec`]).
    pub fn from_ewkb(raw: &[u8]) -> (r: Result<LongLat, EwkbError>)
        ensures
            r == ewkb_point_spec(raw@),
    {
        if raw.len() < 5 {
            return Err(EwkbError::Truncated);
        }
        let type_id = read_u32_le(raw, 1);
        let with_srid = type_id & 0x2000_0000 == 0x2000_0000;
        let at: usize = if with_srid {
            9
        } else {
            5
        };
        if raw.len() < at + 16 {
            return Err(EwkbError::Truncated);
        }
        let srid = if with_srid {
            Some(to_i32(read_u32_le(raw, 5)))
        } else {
            None
        };
        let long_bits = read_u64_le(raw, at);
        let lat_bits = read_u64_le(raw, at + 8);
        if type_id & 0xff != 1 {
            return Err(EwkbError::UnsupportedGeometry(type_id));
        }
        Ok(LongLat { long_bits, lat_bits, srid })
    }

    /// Whether a column type of this name holds such points (`geography`).
    pub fn accepts(pg_type: &str) -> (r: bool)
        ensures
            r == (pg_type@ == "geography"@),
    {
        same_text(pg_type, "geography")
    }
}

/// `{"long":` + `long` + `,"lat":` + `lat` + `}`.
pub open spec fn point_json_spec(long: Seq<char>, lat: Seq<char>) -> Seq<char> {
    "{\"long\":"@ + long + ",\"lat\":"@ + lat + "}"@
}

/// Writes a point as JSON from the texts of its two coordinates.
pub fn point_json(long_text: &str, lat_text: &str) -> (r: String)
    ensures
        r@ == point_json_spec(long_text@, lat_text@),
{
    let mut r = String::new();
    r.append("{\"long\":");
    r.append(long_text);
    r.append(",\"lat\":");
    r.append(lat_text);
    r.append("}");
    r
}

} // verus!
