//! Reading the storage device descriptor that `IOCTL_STORAGE_QUERY_PROPERTY`
//! returns. The device call itself is made by the program; this module
//! reads the returned buffer.

use vstd::prelude::*;

use crate::hardware::{unknown, unknown_text};
use crate::text::{decimal, decimal_string, squeeze, squeeze_of, string_of, trim, trim_bounds, chars_of, string_of_range};

use super::util::or_unknown;
use super::values::{bus_name, bus_name_of, code_string, code_text};

verus! {

/// What the descriptor of one physical drive says.
#[derive(Debug)]
pub struct StorageDescriptor {
    pub index: u32,
    pub device: String,
    pub vendor: String,
    pub product: String,
    pub revision: String,
    pub serial: String,
    pub bus: String,
    pub raw_size: u32,
}

/// The little-endian value of four bytes.
pub open spec fn le_u32(b: Seq<u8>) -> nat {
    b[0] as nat + 256 * (b[1] as nat) + 65536 * (b[2] as nat) + 16777216 * (b[3] as nat)
}

/// The little-endian `u32` at `offset`, if the buffer holds four bytes there.
pub open spec fn u32_at(buffer: Seq<u8>, offset: int) -> Option<u32> {
    if offset + 4 <= buffer.len() {
        Some(le_u32(buffer.subrange(offset, offset + 4)) as u32)
    } else {
        None
    }
}

/// The little-endian `u32` at `offset`, if the buffer holds four bytes there.
pub fn read_u32(buffer: &Vec<u8>, offset: usize) -> (r: Option<u32>)
    requires
        offset + 4 <= usize::MAX,
    ensures
        r == u32_at(buffer@, offset as int),
{
    if offset + 4 > buffer.len() {
        return None;
    }
    let v: u32 = buffer[offset] as u32 + 256 * (buffer[offset + 1] as u32) + 65536 * (buffer[offset + 2] as u32)
        + 16777216 * (buffer[offset + 3] as u32);
    assert(buffer@.subrange(offset as int, offset + 4)[2] == buffer@[offset + 2]);
    Some(v)
}

/// The characters of `bytes` decoded as UTF-8, each invalid sequence
/// replaced by U+FFFD (`String::from_utf8_lossy`).
pub uninterp spec fn utf8_lossy(bytes: Seq<u8>) -> Seq<char>;

/// The characters that ASCII bytes stand for.
pub open spec fn ascii_chars(bytes: Seq<u8>) -> Seq<char> {
    bytes.map_values(|b: u8| b as char)
}

/// Decodes `buffer[from..to]` with `String::from_utf8_lossy`. Trusted: the
/// result is the lossy decoding of those bytes, and bytes that are all ASCII
/// decode to the characters they stand for.
#[verifier::external_body]
fn decode_lossy(buffer: &Vec<u8>, from: usize, to: usize) -> (r: String)
    requires
        from <= to <= buffer.len(),
    ensures
        r@ == utf8_lossy(buffer@.subrange(from as int, to as int)),
        (forall|i: int| from <= i < to ==> buffer@[i] < 0x80) ==> r@ == ascii_chars(
            buffer@.subrange(from as int, to as int),
        ),
{
    String::from_utf8_lossy(&buffer[from..to]).into_owned()
}

/// The end of the zero-terminated text starting at `offset`: the first zero
/// byte at or after it, or the end of the buffer.
pub open spec fn text_end(buffer: Seq<u8>, offset: int) -> int
    decreases buffer.len() - offset,
{
    if offset >= buffer.len() {
        buffer.len() as int
    } else if buffer[offset] == 0 {
        offset
    } else {
        text_end(buffer, offset + 1)
    }
}

/// The text a descriptor stores at `offset`: its zero-terminated bytes
/// decoded, with white space collapsed, or the placeholder when the offset
/// is zero, outside the buffer, or the text is blank.
pub open spec fn offset_text(buffer: Seq<u8>, offset: u32) -> Seq<char> {
    if offset == 0 || offset >= buffer.len() {
        unknown_text()
    } else {
        or_unknown(trim(squeeze(trim(utf8_lossy(buffer.subrange(offset as int, text_end(buffer, offset as int)))))))
    }
}

/// The text a descriptor stores at `offset`; when its bytes are ASCII it
/// is those characters, trimmed, with white space collapsed.
pub fn read_offset_string(buffer: &Vec<u8>, offset: u32) -> (r: String)
    ensures
        r@ == offset_text(buffer@, offset),
        0 < offset < buffer@.len() && (forall|i: int|
            offset <= i < text_end(buffer@, offset as int) ==> buffer@[i] < 0x80) ==> r@ == or_unknown(
            trim(squeeze(trim(ascii_chars(buffer@.subrange(offset as int, text_end(buffer@, offset as int)))))),
        ),
{
    let start = offset as usize;
    if offset == 0 || start >= buffer.len() {
        return unknown();
    }
    let mut end = start;
    while end < buffer.len() && buffer[end] != 0
        invariant
            start <= end <= buffer.len(),
            text_end(buffer@, start as int) == text_end(buffer@, end as int),
        decreases buffer.len() - end,
    {
        end += 1;
    }
    let text = decode_lossy(buffer, start, end);
    let v = chars_of(text.as_str());
    let (lo, hi) = trim_bounds(&v);
    let t = string_of_range(&v, lo, hi);
    let sq = squeeze_of(&chars_of(t.as_str()));
    let (lo2, hi2) = trim_bounds(&sq);
    let out = string_of_range(&sq, lo2, hi2);
    if out.unicode_len() == 0 {
        unknown()
    } else {
        out
    }
}

/// The bus a descriptor names, including the virtual bus.
pub open spec fn descriptor_bus_text(value: u32) -> Seq<char> {
    if value == 0 {
        unknown_text()
    } else if value == 14 {
        "Virtual"@
    } else {
        match bus_name(value as nat) {
            Some(name) => name,
            None => code_text("BusType"@, value as nat),
        }
    }
}

/// The bus a descriptor names.
pub fn storage_bus_type(value: u32) -> (r: String)
    ensures
        r@ == descriptor_bus_text(value),
{
    if value == 0 {
        return unknown();
    }
    if value == 14 {
        return String::from_str("Virtual");
    }
    match bus_name_of(value) {
        Some(name) => String::from_str(name),
        None => code_string("BusType", value),
    }
}

/// The device name of drive `index`.
pub open spec fn drive_name(index: u32) -> Seq<char> {
    "PhysicalDrive"@ + decimal(index as nat)
}

/// Writes the device name of drive `index`.
pub fn drive_name_string(index: u32) -> (r: String)
    ensures
        r@ == drive_name(index),
{
    let mut r = String::from_str("PhysicalDrive");
    r.append(decimal_string(index as u128).as_str());
    r
}

/// The error for a descriptor shorter than its fixed part.
pub open spec fn too_short_text(n: u32) -> Seq<char> {
    "descriptor too short: "@ + decimal(n as nat) + " bytes returned"@
}

/// `Some(v)`'s value, or `d`.
pub open spec fn or_default(v: Option<u32>, d: u32) -> u32 {
    match v {
        Some(x) => x,
        None => d,
    }
}

/// The descriptor of drive `index` that `returned` bytes of `output` hold:
/// an error when fewer than the 36 bytes of its fixed part came back.
pub fn descriptor_from_buffer(index: u32, output: &Vec<u8>, returned: u32) -> (r: Result<StorageDescriptor, String>)
    ensures
        returned < 36 <==> r is Err,
        returned < 36 ==> r->Err_0@ == too_short_text(returned),
        r is Ok ==> ({
            let d = r->Ok_0;
            &&& d.index == index
            &&& d.device@ == drive_name(index)
            &&& d.raw_size == or_default(u32_at(output@, 4), returned)
            &&& d.vendor@ == offset_text(output@, or_default(u32_at(output@, 12), 0))
            &&& d.product@ == offset_text(output@, or_default(u32_at(output@, 16), 0))
            &&& d.revision@ == offset_text(output@, or_default(u32_at(output@, 20), 0))
            &&& d.serial@ == offset_text(output@, or_default(u32_at(output@, 24), 0))
            &&& d.bus@ == descriptor_bus_text(or_default(u32_at(output@, 28), 0))
        }),
{
    if returned < 36 {
        let mut e = String::from_str("descriptor too short: ");
        e.append(decimal_string(returned as u128).as_str());
        e.append(" bytes returned");
        return Err(e);
    }
    let raw_size = match read_u32(output, 4) {
        Some(v) => v,
        None => returned,
    };
    let vendor = match read_u32(output, 12) {
        Some(v) => v,
        None => 0,
    };
    let product = match read_u32(output, 16) {
        Some(v) => v,
        None => 0,
    };
    let revision = match read_u32(output, 20) {
        Some(v) => v,
        None => 0,
    };
    let serial = match read_u32(output, 24) {
        Some(v) => v,
        None => 0,
    };
    let bus = match read_u32(output, 28) {
        Some(v) => v,
        None => 0,
    };
    Ok(StorageDescriptor {
        index,
        device: drive_name_string(index),
        vendor: read_offset_string(output, vendor),
        product: read_offset_string(output, product),
        revision: read_offset_string(output, revision),
        serial: read_offset_string(output, serial),
        bus: storage_bus_type(bus),
        raw_size,
    })
}

} // verus!
