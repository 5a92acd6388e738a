//! Rendering reports as tables and Markdown.

use vstd::prelude::*;

use crate::collector::BenchmarkReport;
use crate::emoji::{decorate, decorated};
use crate::hardware::{CapabilityReport, HardwareReport, Section};
use crate::i18n::{display_value, shown, t, tr, Lang};
use crate::options::{RenderFormat, TableStyle};
use crate::text::join;

use self::debug::record_sources;
use self::style::TextStyle;
use self::tally::is_tally;

pub mod debug;
pub mod json;
pub mod markdown;
pub mod style;
pub mod table;
pub mod tabled;
pub mod tally;
pub mod warnings;

verus! {

/// A label in `lang`, decorated with its emoji when `emoji` is on.
pub open spec fn label_text(lang: Lang, key: Seq<char>, emoji: bool) -> Seq<char> {
    decorated(emoji, key, tr(lang, key))
}

/// The label for `key`.
pub fn label(lang: Lang, key: &str, emoji: bool) -> (r: String)
    ensures
        r@ == label_text(lang, key@, emoji),
{
    decorate(emoji, key, t(lang, key))
}

/// How a field value is shown.
pub fn value(v: &str, lang: Lang) -> (r: String)
    ensures
        r@ == shown(lang, v@),
{
    display_value(lang, v)
}

/// "yes" or "no" in `lang`.
pub open spec fn yes_no_text(b: bool, lang: Lang) -> Seq<char> {
    tr(lang, if b { "yes"@ } else { "no"@ })
}

/// "yes" or "no" in `lang`.
pub fn yes_no(b: bool, lang: Lang) -> (r: String)
    ensures
        r@ == yes_no_text(b, lang),
{
    String::from_str(t(lang, if b { "yes" } else { "no" }))
}

/// Renders a report in `format`. JSON is not written here: for it the result
/// is `None`, and the caller serializes the report itself.
pub fn render_report(
    report: &HardwareReport,
    section: Section,
    format: RenderFormat,
    table_style: TableStyle,
    color: bool,
    bold: bool,
    debug: bool,
    lang: Lang,
    emoji: bool,
) -> (r: Option<String>)
    ensures
        format == RenderFormat::Json <==> r is None,
        format == RenderFormat::Markdown ==> exists|counts: Seq<(Seq<char>, nat)>|
            #![trigger markdown::md_blocks(*report, section, debug, counts, lang, emoji)]
            ((debug || report.debug@.len() > 0) ==> is_tally(record_sources(report.debug@), counts))
                && r.unwrap()@ == join(markdown::md_blocks(*report, section, debug, counts, lang, emoji), "\n\n"@),
        format == RenderFormat::Table ==> exists|counts: Seq<(Seq<char>, nat)>|
            #![trigger table::report_blocks(*report, section, table_style, TextStyle { color, bold }, debug, counts, lang, emoji)]
            ((debug || report.debug@.len() > 0) ==> is_tally(record_sources(report.debug@), counts))
                && r.unwrap()@ == join(
                table::report_blocks(*report, section, table_style, TextStyle { color, bold }, debug, counts, lang, emoji),
                "\n\n"@,
            ),
{
    let text_style = TextStyle::new(color, bold);
    match format {
        RenderFormat::Json => None,
        RenderFormat::Markdown => Some(markdown::render_report(report, section, debug, lang, emoji)),
        RenderFormat::Table => Some(table::render_report(report, section, table_style, text_style, debug, lang, emoji)),
    }
}

/// Renders the `doctor` report in `format`; `None` for JSON, which the
/// caller serializes itself.
pub fn render_capabilities(
    report: &CapabilityReport,
    format: RenderFormat,
    table_style: TableStyle,
    color: bool,
    bold: bool,
    lang: Lang,
    emoji: bool,
) -> (r: Option<String>)
    ensures
        format == RenderFormat::Json <==> r is None,
        format == RenderFormat::Markdown ==> r.unwrap()@ == markdown::md_capabilities(*report, lang, emoji),
        format == RenderFormat::Table ==> r.unwrap()@ == table::capabilities_text(
            *report,
            table_style,
            TextStyle { color, bold },
            lang,
            emoji,
        ),
{
    let text_style = TextStyle::new(color, bold);
    match format {
        RenderFormat::Json => None,
        RenderFormat::Markdown => Some(markdown::render_capabilities(report, lang, emoji)),
        RenderFormat::Table => Some(table::render_capabilities(report, table_style, text_style, lang, emoji)),
    }
}

/// Renders the `bench` report in `format`; `None` for JSON, which the
/// caller serializes itself.
pub fn render_benchmarks(
    report: &BenchmarkReport,
    format: RenderFormat,
    table_style: TableStyle,
    color: bool,
    bold: bool,
    lang: Lang,
    emoji: bool,
) -> (r: Option<String>)
    ensures
        format == RenderFormat::Json <==> r is None,
        format == RenderFormat::Markdown ==> r.unwrap()@ == markdown::md_benchmarks(*report, lang, emoji),
        format == RenderFormat::Table ==> r.unwrap()@ == table::benchmarks_text(
            *report,
            table_style,
            TextStyle { color, bold },
            lang,
            emoji,
        ),
{
    let text_style = TextStyle::new(color, bold);
    match format {
        RenderFormat::Json => None,
        RenderFormat::Markdown => Some(markdown::render_benchmarks(report, lang, emoji)),
        RenderFormat::Table => Some(table::render_benchmarks(report, table_style, text_style, lang, emoji)),
    }
}

} // verus!
