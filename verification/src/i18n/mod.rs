//! Display languages and the texts shown for labels and placeholder values.

use vstd::prelude::*;

use crate::text::{chars_eq, chars_of, lower, lower_of, trim, trim_bounds, trim_end_char, trim_end_char_of};

pub mod en_us;
pub mod zh_cn;

verus! {

/// A display language.
#[derive(Debug, Clone, Copy, PartialEq, Eq, Structural)]
pub enum Lang {
    EnUs,
    ZhCn,
}

impl Lang {
    /// The language's command-line name.
    pub fn as_str(self) -> (r: &'static str)
        ensures
            r@ == (match self {
                Lang::EnUs => "en-us"@,
                Lang::ZhCn => "zh-cn"@,
            }),
    {
        match self {
            Lang::EnUs => "en-us",
            Lang::ZhCn => "zh-cn",
        }
    }
}

/// The text for `key` in `lang`.
pub open spec fn tr(lang: Lang, key: Seq<char>) -> Seq<char> {
    match lang {
        Lang::EnUs => en_us::text(key),
        Lang::ZhCn => zh_cn::text(key),
    }
}

/// The text for `key` in `lang`.
pub fn t(lang: Lang, key: &str) -> (r: &'static str)
    ensures
        r@ == tr(lang, key@),
{
    match lang {
        Lang::EnUs => en_us::t(key),
        Lang::ZhCn => zh_cn::t(key),
    }
}

/// `value` trimmed, stripped of trailing dots and lower-cased: the form in
/// which placeholder values are recognised.
pub open spec fn normalized(value: Seq<char>) -> Seq<char> {
    lower(trim_end_char(trim(value), '.'))
}

/// Whether `value` only says that nothing is known (empty, "Unknown",
/// firmware filler such as "To Be Filled By O.E.M.", ...).
pub open spec fn is_placeholder(value: Seq<char>) -> bool {
    let n = normalized(value);
    ||| n.len() == 0
    ||| n == "unknown"@
    ||| n == "default string"@
    ||| n == "to be filled by o.e.m"@
    ||| n == "to be filled by oem"@
    ||| n == "system serial number"@
    ||| n == "none"@
    ||| n == "not specified"@
}

/// What is shown for `value`: the language's unknown marker for a
/// placeholder, the value itself otherwise.
pub open spec fn shown(lang: Lang, value: Seq<char>) -> Seq<char> {
    if is_placeholder(value) {
        tr(lang, "unknown"@)
    } else {
        value
    }
}

/// The unknown marker is shown as itself, so showing a shown value again
/// changes nothing.
pub proof fn lemma_shown_idempotent(lang: Lang, value: Seq<char>)
    ensures
        shown(lang, shown(lang, value)) == shown(lang, value),
{
    let marker = tr(lang, "unknown"@);
    assert(!is_placeholder(marker)) by {
        reveal_strlit("unknown");
        reveal_strlit("【--UNKNOWN--】");
        reveal_strlit("【--未知--】");
        reveal_strlit("default string");
        reveal_strlit("to be filled by o.e.m");
        reveal_strlit("to be filled by oem");
        reveal_strlit("system serial number");
        reveal_strlit("none");
        reveal_strlit("not specified");
        let m = marker;
        assert(m.len() > 0 && !crate::text::is_ws(m[0]) && !crate::text::is_ws(m.last()) && m.last() != '.');
        assert(crate::text::trim_start(m) == m);
        assert(crate::text::trim_end(m) == m);
        assert(trim_end_char(m, '.') == m);
        let n = normalized(m);
        assert(n.len() == m.len());
        assert(n[0] == m[0]);
    }
}

/// Whether `value` is a placeholder.
pub fn is_unknown_display_value(value: &str) -> (r: bool)
    ensures
        r == is_placeholder(value@),
{
    let v = chars_of(value);
    let (lo, hi) = trim_bounds(&v);
    let mut core: Vec<char> = Vec::new();
    let mut i = lo;
    while i < hi
        invariant
            lo <= i <= hi <= v.len(),
            core@ == v@.subrange(lo as int, i as int),
        decreases hi - i,
    {
        core.push(v[i]);
        assert(v@.subrange(lo as int, i + 1) =~= v@.subrange(lo as int, i as int).push(v@[i as int]));
        i += 1;
    }
    let n = lower_of(&trim_end_char_of(&core, '.'));
    n.len() == 0 || chars_eq(&n, &chars_of("unknown")) || chars_eq(&n, &chars_of("default string"))
        || chars_eq(&n, &chars_of("to be filled by o.e.m")) || chars_eq(&n, &chars_of("to be filled by oem"))
        || chars_eq(&n, &chars_of("system serial number")) || chars_eq(&n, &chars_of("none"))
        || chars_eq(&n, &chars_of("not specified"))
}

/// The text shown for `value` in `lang`.
pub fn display_value(lang: Lang, value: &str) -> (r: String)
    ensures
        r@ == shown(lang, value@),
{
    if is_unknown_display_value(value) {
        String::from_str(t(lang, "unknown"))
    } else {
        String::from_str(value)
    }
}

/// What is shown for an optional count: its decimal form, or the unknown marker.
pub open spec fn shown_count(lang: Lang, value: Option<usize>) -> Seq<char> {
    match value {
        Some(n) => shown(lang, crate::text::decimal(n as nat)),
        None => tr(lang, "unknown"@),
    }
}

/// The text shown for an optional count in `lang`.
pub fn display_optional(lang: Lang, value: Option<usize>) -> (r: String)
    ensures
        r@ == shown_count(lang, value),
{
    match value {
        Some(n) => {
            let s = crate::text::decimal_string(n as u128);
            display_value(lang, s.as_str())
        },
        None => String::from_str(t(lang, "unknown")),
    }
}

} // verus!
