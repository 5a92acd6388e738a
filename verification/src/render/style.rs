//! ANSI colour and bold decorations for CLI text.

use vstd::prelude::*;

use crate::options::TableStyle;
use crate::text::{chars_of, find, join, lines, lines_of, string_of_range, views};

verus! {

/// Which decorations the user allowed.
#[derive(Debug, Clone, Copy, PartialEq, Eq, Structural)]
pub struct TextStyle {
    pub color: bool,
    pub bold: bool,
}

/// The SGR codes applied to a text: bold first (when both the style and the
/// caller ask for it), then the colour (when colours are on).
pub open spec fn sgr_codes(style: TextStyle, color_code: Option<Seq<char>>, bold: bool) -> Seq<Seq<char>> {
    (if style.bold && bold { seq!["1"@] } else { Seq::empty() }) + (if style.color && color_code is Some {
        seq![color_code.unwrap()]
    } else {
        Seq::empty()
    })
}

/// `text` wrapped in an SGR sequence for `codes`, or unchanged when there are none.
pub open spec fn with_codes(codes: Seq<Seq<char>>, text: Seq<char>) -> Seq<char> {
    if codes.len() == 0 {
        text
    } else {
        "\x1b["@ + join(codes, ";"@) + "m"@ + text + "\x1b[0m"@
    }
}

/// `text` as `apply` decorates it.
pub open spec fn styled(style: TextStyle, text: Seq<char>, color_code: Option<Seq<char>>, bold: bool) -> Seq<char> {
    with_codes(sgr_codes(style, color_code, bold), text)
}

/// With colours and bold both switched off, decorating leaves every text
/// as it is: no escape sequence is written.
pub proof fn lemma_plain_style_is_identity(text: Seq<char>, color_code: Option<Seq<char>>, bold: bool)
    ensures
        styled(TextStyle { color: false, bold: false }, text, color_code, bold) == text,
{
    assert(sgr_codes(TextStyle { color: false, bold: false }, color_code, bold) =~= Seq::<Seq<char>>::empty());
}

/// The colour switch and the bold switch act independently: with colours
/// off no colour code is written whatever the bold switch, and with bold
/// off no bold code is written whatever the colour switch.
pub proof fn lemma_switches_independent(style: TextStyle, color_code: Option<Seq<char>>, bold: bool)
    ensures
        !style.color ==> !sgr_codes(style, color_code, bold).contains(color_code.unwrap()) || (style.bold && bold
            && color_code.unwrap() == "1"@),
        !style.bold ==> !sgr_codes(style, color_code, bold).contains("1"@) || (style.color && color_code == Some("1"@)),
        sgr_codes(style, color_code, bold) == sgr_codes(TextStyle { color: false, ..style }, color_code, bold) + sgr_codes(
            TextStyle { bold: false, ..style },
            color_code,
            bold,
        ),
{
    let a = if style.bold && bold { seq!["1"@] } else { Seq::<Seq<char>>::empty() };
    let b = if style.color && color_code is Some { seq![color_code.unwrap()] } else { Seq::<Seq<char>>::empty() };
    assert(sgr_codes(TextStyle { color: false, ..style }, color_code, bold) =~= a);
    assert(sgr_codes(TextStyle { bold: false, ..style }, color_code, bold) =~= b);
    assert(sgr_codes(style, color_code, bold) =~= a + b);
    if !style.color && sgr_codes(style, color_code, bold).contains(color_code.unwrap()) {
        assert(sgr_codes(style, color_code, bold) =~= a);
    }
    if !style.bold && sgr_codes(style, color_code, bold).contains("1"@) {
        assert(sgr_codes(style, color_code, bold) =~= b);
    }
}

/// Titles and table headers: bold cyan.
pub open spec fn header_text(style: TextStyle, text: Seq<char>) -> Seq<char> {
    styled(style, text, Some("36"@), true)
}

/// Keys: cyan.
pub open spec fn key_text(style: TextStyle, text: Seq<char>) -> Seq<char> {
    styled(style, text, Some("36"@), false)
}

/// Warnings: bold yellow.
pub open spec fn warning_text(style: TextStyle, text: Seq<char>) -> Seq<char> {
    styled(style, text, Some("33"@), true)
}

/// Notes: grey.
pub open spec fn note_text(style: TextStyle, text: Seq<char>) -> Seq<char> {
    styled(style, text, Some("90"@), false)
}


/// The line of a rendered table that holds the column headers.
pub open spec fn header_line_index(table_style: TableStyle) -> int {
    match table_style {
        TableStyle::Psql | TableStyle::Blank => 0,
        _ => 1,
    }
}

/// `line` with each header, in turn, decorated where it first occurs after
/// the previous one.
pub open spec fn wrap_headers(line: Seq<char>, headers: Seq<Seq<char>>, style: TextStyle) -> Seq<char>
    decreases headers.len(),
{
    if headers.len() == 0 {
        line
    } else {
        let h = headers[0];
        let p = find(line, h);
        if h.len() > 0 && p >= 0 {
            line.take(p) + header_text(style, h) + wrap_headers(line.skip(p + h.len()), headers.drop_first(), style)
        } else {
            wrap_headers(line, headers.drop_first(), style)
        }
    }
}

/// A rendered table with the header cells of its header line decorated,
/// its lines rejoined with `'\n'`.
pub open spec fn styled_table(table: Seq<char>, headers: Seq<Seq<char>>, table_style: TableStyle, style: TextStyle) -> Seq<char> {
    let ls = lines(table);
    let i = header_line_index(table_style);
    join(
        if i < ls.len() {
            ls.update(i, wrap_headers(ls[i], headers, style))
        } else {
            ls
        },
        "\n"@,
    )
}

/// Decorates the header cells in one line of a table.
pub fn style_header_cells(line: &str, headers: &Vec<String>, style: TextStyle) -> (r: String)
    ensures
        r@ == wrap_headers(line@, views(headers@), style),
{
    let v = chars_of(line);
    let ghost hs = views(headers@);
    let mut out = String::new();
    let mut cur: usize = 0;
    let mut k: usize = 0;
    assert(v@.skip(0) =~= v@);
    assert(hs.skip(0) =~= hs);
    while k < headers.len()
        invariant
            k <= headers.len(),
            cur <= v.len(),
            hs == views(headers@),
            out@ + wrap_headers(v@.skip(cur as int), hs.skip(k as int), style) == wrap_headers(v@, hs, style),
        decreases headers.len() - k,
    {
        let h = chars_of(headers[k].as_str());
        let ghost rest = v@.skip(cur as int);
        assert(hs.skip(k as int)[0] == h@);
        assert(hs.skip(k as int).drop_first() =~= hs.skip(k + 1));
        if h.len() > 0 {
            match crate::text::find_from(&v, &h, cur) {
                Some(i) => {
                    proof {
                        crate::text::lemma_find_bounds(rest, h@);
                    }
                    let ghost before = out@;
                    out.append(string_of_range(&v, cur, i).as_str());
                    out.append(style.header(headers[k].as_str()).as_str());
                    assert(rest.take(i - cur) =~= v@.subrange(cur as int, i as int));
                    assert(rest.skip(i - cur + h@.len()) =~= v@.skip(i + h@.len()));
                    cur = i + h.len();
                    assert(out@ + wrap_headers(v@.skip(cur as int), hs.skip(k + 1), style)
                        =~= before + wrap_headers(rest, hs.skip(k as int), style));
                },
                None => {},
            }
        }
        k += 1;
    }
    assert(hs.skip(k as int).len() == 0);
    out.append(string_of_range(&v, cur, v.len()).as_str());
    assert(v@.skip(cur as int) =~= v@.subrange(cur as int, v.len() as int));
    out
}

/// Decorates the header cells of a rendered table (`style_table_header`).
pub fn style_table_header(table: &str, headers: &Vec<String>, table_style: TableStyle, style: TextStyle) -> (r: String)
    ensures
        r@ == styled_table(table@, views(headers@), table_style, style),
{
    let ls = lines_of(table);
    let idx: usize = match table_style {
        TableStyle::Psql | TableStyle::Blank => 0,
        _ => 1,
    };
    let ghost target = if idx < ls.len() {
        views(ls@).update(idx as int, wrap_headers(views(ls@)[idx as int], views(headers@), style))
    } else {
        views(ls@)
    };
    let mut out: Vec<String> = Vec::new();
    let mut i: usize = 0;
    while i < ls.len()
        invariant
            i <= ls.len(),
            target.len() == ls.len(),
            target == (if idx < ls.len() {
                views(ls@).update(idx as int, wrap_headers(views(ls@)[idx as int], views(headers@), style))
            } else {
                views(ls@)
            }),
            views(out@) == target.take(i as int),
        decreases ls.len() - i,
    {
        let ghost prev = views(out@);
        assert(views(ls@)[i as int] == ls@[i as int]@);
        let line = if i == idx {
            style_header_cells(ls[i].as_str(), headers, style)
        } else {
            ls[i].clone()
        };
        assert(line@ == target[i as int]);
        out.push(line);
        assert(views(out@) =~= prev.push(line@));
        assert(views(out@) =~= target.take(i + 1));
        i += 1;
    }
    assert(target.take(ls.len() as int) =~= target);
    crate::text::join_strings(&out, "\n")
}

impl TextStyle {
    /// A style with the given switches.
    pub fn new(color: bool, bold: bool) -> (r: Self)
        ensures
            r.color == color,
            r.bold == bold,
    {
        TextStyle { color, bold }
    }

    /// A section title.
    pub fn title(self, text: &str) -> (r: String)
        ensures
            r@ == header_text(self, text@),
    {
        self.apply(text, Some("36"), true)
    }

    /// A table header.
    pub fn header(self, text: &str) -> (r: String)
        ensures
            r@ == header_text(self, text@),
    {
        self.apply(text, Some("36"), true)
    }

    /// A key in a key/value line.
    pub fn key(self, text: &str) -> (r: String)
        ensures
            r@ == key_text(self, text@),
    {
        self.apply(text, Some("36"), false)
    }

    /// A warning code or title.
    pub fn warning(self, text: &str) -> (r: String)
        ensures
            r@ == warning_text(self, text@),
    {
        self.apply(text, Some("33"), true)
    }

    /// A note.
    pub fn note(self, text: &str) -> (r: String)
        ensures
            r@ == note_text(self, text@),
    {
        self.apply(text, Some("90"), false)
    }

    /// `text` with the decorations that both the style and the caller allow.
    pub fn apply(self, text: &str, color_code: Option<&str>, bold: bool) -> (r: String)
        ensures
            r@ == styled(self, text@, match color_code {
                Some(c) => Some(c@),
                None => None,
            }, bold),
    {
        let ghost cc = match color_code {
            Some(c) => Some(c@),
            None => None::<Seq<char>>,
        };
        let mut codes: Vec<String> = Vec::new();
        if self.bold && bold {
            codes.push(String::from_str("1"));
        }
        if self.color {
            if let Some(color_code) = color_code {
                codes.push(String::from_str(color_code));
            }
        }
        assert(views(codes@) =~= sgr_codes(self, cc, bold));
        if codes.len() == 0 {
            String::from_str(text)
        } else {
            let mut r = String::from_str("\x1b[");
            r.append(crate::text::join_strings(&codes, ";").as_str());
            r.append("m");
            r.append(text);
            r.append("\x1b[0m");
            r
        }
    }
}

} // verus!
