//! Small value helpers shared by the Windows collectors.

use vstd::prelude::*;

use crate::hardware::debug::opt_view;
use crate::hardware::{unknown, unknown_text};
use crate::size::bytes_text;
use crate::text::{is_blank, trim, trimmed};

verus! {

/// The first of `values` that is not the placeholder, or the placeholder.
pub open spec fn first_known_text(values: Seq<Seq<char>>) -> Seq<char>
    decreases values.len(),
{
    if values.len() == 0 {
        unknown_text()
    } else if values[0] != unknown_text() {
        values[0]
    } else {
        first_known_text(values.drop_first())
    }
}

/// The first of `values` that is not the placeholder, or the placeholder.
pub fn first_known(values: &Vec<String>) -> (r: String)
    ensures
        r@ == first_known_text(crate::text::views(values@)),
{
    let ghost vs = crate::text::views(values@);
    assert(vs.skip(0) =~= vs);
    let mut i: usize = 0;
    while i < values.len()
        invariant
            i <= values.len(),
            vs == crate::text::views(values@),
            first_known_text(vs) == first_known_text(vs.skip(i as int)),
        decreases values.len() - i,
    {
        assert(vs.skip(i as int)[0] == values@[i as int]@);
        if !crate::hardware::is_unknown(values[i].as_str()) {
            return values[i].clone();
        }
        assert(vs.skip(i as int).drop_first() =~= vs.skip(i + 1));
        i += 1;
    }
    assert(vs.skip(i as int).len() == 0);
    unknown()
}

/// A manufacturer name, or the placeholder for a blank one or Windows'
/// generic "(Standard disk drives)".
pub open spec fn manufacturer_text(value: Seq<char>) -> Seq<char> {
    if value == "(Standard disk drives)"@ || trim(value).len() == 0 {
        unknown_text()
    } else {
        trim(value)
    }
}

/// A manufacturer name, or the placeholder for a blank one or Windows'
/// generic "(Standard disk drives)".
pub fn clean_manufacturer(value: &str) -> (r: String)
    ensures
        r@ == manufacturer_text(value@),
{
    if crate::text::eq(value, "(Standard disk drives)") || is_blank(value) {
        unknown()
    } else {
        trimmed(value)
    }
}

/// `bytes` in binary units ("1.50 KiB").
pub fn format_bytes(bytes: u64) -> (r: String)
    ensures
        r@ == bytes_text(bytes as nat),
{
    crate::size::format_bytes(bytes)
}

/// `value`, or the placeholder when it is empty.
pub open spec fn or_unknown(value: Seq<char>) -> Seq<char> {
    if value.len() == 0 {
        unknown_text()
    } else {
        value
    }
}

/// `value`, or the placeholder when it is empty.
pub fn known_or_unknown(value: &str) -> (r: String)
    ensures
        r@ == or_unknown(value@),
{
    if value.unicode_len() == 0 {
        unknown()
    } else {
        String::from_str(value)
    }
}

/// A trimmed optional text, or the placeholder when it is missing or blank.
pub open spec fn known_text(value: Option<Seq<char>>) -> Seq<char> {
    match value {
        Some(s) => or_unknown(trim(s)),
        None => unknown_text(),
    }
}

/// A trimmed optional text, or the placeholder when it is missing or blank.
pub fn known(value: &Option<String>) -> (r: String)
    ensures
        r@ == known_text(opt_view(*value)),
{
    match value {
        Some(s) => {
            let t = trimmed(s.as_str());
            known_or_unknown(t.as_str())
        },
        None => unknown(),
    }
}

} // verus!
