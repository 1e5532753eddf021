//! The terminal block render driver: walks the document top to bottom,
//! deferring footnote definitions to the end, and renders headings,
//! paragraphs, code blocks (through an external syntax highlighter), lists,
//! tables, quotes, rules and images with Unicode-width-aware layout and the
//! differential style state machine.
//!
//! Every render function appends to a character buffer and is proved to
//! append exactly what its `*_s` spec function describes.

use vstd::prelude::*;

use crate::anchor::{TocEntry, TocEntryV, entries_view, generate_toc, toc_of};
use crate::ast::{Alignment, Document, DocumentV, Element, ElementV, InlineV, rows_view, strings_view};
use crate::style::{
    Color, StyleState, color_code, color_sgr, diff_seq, esc, fresh_seq, plain_style, push_esc,
};
use crate::textutil::{
    char_repeat, lines_of, min_int, min_usize, push_repeat, push_str_chars, sat_add,
    sat_add_usize, sat_sub, sat_sub_usize, split_lines, str_eq, string_from_chars,
};
use unicode_width::UnicodeWidthStr;

verus! {

/// What `unicode_width::UnicodeWidthStr::width` returns for a string: its
/// display width in terminal columns, a function of the characters alone.
pub uninterp spec fn str_width(s: Seq<char>) -> nat;

/// Relies on `unicode_width::UnicodeWidthStr::width`.
#[verifier::external_body]
fn display_width(s: &str) -> (r: usize)
    ensures
        r as nat == str_width(s@),
{
    UnicodeWidthStr::width(s)
}

/// What the external syntax highlighter produces for a code block: one
/// escaped string per line of the text. It is a function of the language
/// hint, the theme choice and the text alone: the default syntax and theme
/// sets are embedded in the highlighter, an unknown hint falls back to the
/// plain-text syntax, and the dark or light base16-ocean theme is chosen by
/// the flag.
pub uninterp spec fn highlighted_lines(language: Option<Seq<char>>, dark: bool, text: Seq<char>) -> Seq<
    Seq<char>,
>;

pub open spec fn opt_str_view(o: Option<&str>) -> Option<Seq<char>> {
    match o {
        Option::Some(s) => Option::Some(s@),
        Option::None => Option::None,
    }
}

/// Relies on syntect: `HighlightLines::highlight_line` over the embedded
/// default syntax and theme sets, escaped for the terminal, line by line.
#[verifier::external_body]
fn highlight_block(language: Option<&str>, dark: bool, text: &str) -> (r: Vec<String>)
    ensures
        r@.len() == highlighted_lines(opt_str_view(language), dark, text@).len(),
        forall|i: int|
            0 <= i < r@.len() ==> r@[i]@ == highlighted_lines(
                opt_str_view(language),
                dark,
                text@,
            )[i],
{
    let ss = syntect::parsing::SyntaxSet::load_defaults_newlines();
    let ts = syntect::highlighting::ThemeSet::load_defaults();
    let name = if dark { "base16-ocean.dark" } else { "base16-ocean.light" };
    let theme = &ts.themes[name];
    let syntax = language.and_then(|l| ss.find_syntax_by_token(l)).unwrap_or_else(
        || ss.find_syntax_plain_text(),
    );
    let mut h = syntect::easy::HighlightLines::new(syntax, theme);
    let mut out = Vec::new();
    for line in text.lines() {
        let ranges = h.highlight_line(line, &ss).unwrap_or_default();
        out.push(syntect::util::as_24_bit_terminal_escaped(&ranges[..], false));
    }
    out
}

pub open spec fn fg(c: Color) -> Seq<char> {
    esc(color_code(c))
}

pub open spec fn nl() -> Seq<char> {
    seq!['\n']
}

pub open spec fn spaces(n: int) -> Seq<char> {
    char_repeat(' ', n)
}

pub open spec fn imax(a: int, b: int) -> int {
    if a > b {
        a
    } else {
        b
    }
}

/// The level-indexed heading color.
pub open spec fn heading_color(level: u8) -> Color {
    if level == 1 {
        Color::Magenta
    } else if level == 2 {
        Color::Cyan
    } else if level == 3 {
        Color::Blue
    } else if level == 4 {
        Color::Green
    } else if level == 5 {
        Color::Yellow
    } else {
        Color::White
    }
}

/// The level-indexed heading glyph prefix.
pub open spec fn heading_prefix(level: u8) -> Seq<char> {
    if level == 1 {
        "█ "@
    } else if level == 2 {
        "▓ "@
    } else if level == 3 {
        "▒ "@
    } else if level == 4 {
        "░ "@
    } else if level == 5 {
        "• "@
    } else {
        "· "@
    }
}

/// A heading: colored bold glyph prefix, underline for the top two levels,
/// a decorative rule under level one, blank lines around.
pub open spec fn heading_s(level: u8, content: Seq<char>, width: int) -> Seq<char> {
    nl() + fg(heading_color(level)) + esc(1) + heading_prefix(level) + (if level <= 2 {
        esc(4)
    } else {
        Seq::empty()
    }) + content + nl() + esc(39) + esc(0) + (if level == 1 {
        fg(Color::DarkGrey) + char_repeat('─', min_int(width, sat_add(str_width(content) as int, 4)))
            + nl() + esc(39)
    } else {
        Seq::empty()
    }) + nl()
}

/// Cell text padded to its column width per the column's alignment. Left
/// (and unspecified) and right alignment keep one space on the far side;
/// centering splits the padding, the larger half after the text.
pub open spec fn align_text_s(text: Seq<char>, width: int, alignment: Alignment) -> Seq<char> {
    let padding = sat_sub(width, str_width(text) as int);
    match alignment {
        Alignment::Right => spaces(sat_sub(padding, 1)) + text + " "@,
        Alignment::Center => spaces(padding / 2) + text + spaces(padding - padding / 2),
        _ => " "@ + text + spaces(sat_sub(padding, 1)),
    }
}

/// The greatest display width of the cells of column `i`, over the rows from
/// `k` on.
pub open spec fn rows_max_w(rows: Seq<Seq<Seq<char>>>, k: int, i: int) -> int
    decreases rows.len() - k,
{
    if k < 0 || k >= rows.len() {
        0
    } else {
        imax(
            if i < rows[k].len() {
                str_width(rows[k][i]) as int
            } else {
                0
            },
            rows_max_w(rows, k + 1, i),
        )
    }
}

/// The number of columns of a table: the wider of the header row and the
/// first body row.
pub open spec fn table_cols(headers: Seq<Seq<char>>, rows: Seq<Seq<Seq<char>>>) -> int {
    imax(
        headers.len() as int,
        if rows.len() > 0 {
            rows[0].len() as int
        } else {
            0
        },
    )
}

/// The rendered width of column `i`: the greatest display width of the
/// column's header and cells, floored at three, plus two columns of padding.
pub open spec fn col_w(headers: Seq<Seq<char>>, rows: Seq<Seq<Seq<char>>>, i: int) -> int {
    let raw = imax(
        if i < headers.len() {
            str_width(headers[i]) as int
        } else {
            0
        },
        rows_max_w(rows, 0, i),
    );
    sat_add(imax(raw, 3), 2)
}

/// Every rendered column is at least five columns wide: the three-column
/// floor plus two columns of padding.
pub proof fn lemma_column_width_minimum(
    headers: Seq<Seq<char>>,
    rows: Seq<Seq<Seq<char>>>,
    i: int,
)
    ensures
        col_w(headers, rows, i) >= 5,
{
}

/// One border row segment: the dashes of each column, separated by the given
/// joint, over the columns from `i` on.
pub open spec fn border_cells_s(widths: Seq<int>, i: int, joint: char) -> Seq<char>
    decreases widths.len() - i,
{
    if i < 0 || i >= widths.len() {
        Seq::empty()
    } else {
        char_repeat('─', widths[i]) + (if i + 1 < widths.len() {
            seq![joint]
        } else {
            Seq::empty()
        }) + border_cells_s(widths, i + 1, joint)
    }
}

pub open spec fn align_at(alignments: Seq<Alignment>, i: int) -> Alignment {
    if 0 <= i < alignments.len() {
        alignments[i]
    } else {
        Alignment::Left
    }
}

pub open spec fn width_at(widths: Seq<int>, i: int) -> int {
    if 0 <= i < widths.len() {
        widths[i]
    } else {
        10
    }
}

/// The header cells: bold and colored, each followed by a grey separator.
pub open spec fn header_cells_s(
    headers: Seq<Seq<char>>,
    widths: Seq<int>,
    alignments: Seq<Alignment>,
    i: int,
) -> Seq<char>
    decreases headers.len() - i,
{
    if i < 0 || i >= headers.len() {
        Seq::empty()
    } else {
        fg(Color::Cyan) + esc(1) + align_text_s(
            headers[i],
            width_at(widths, i),
            align_at(alignments, i),
        ) + esc(39) + esc(0) + fg(Color::DarkGrey) + "│"@ + header_cells_s(
            headers,
            widths,
            alignments,
            i + 1,
        )
    }
}

/// One body row's cells, each followed by a grey separator.
pub open spec fn row_cells_s(
    row: Seq<Seq<char>>,
    widths: Seq<int>,
    alignments: Seq<Alignment>,
    i: int,
) -> Seq<char>
    decreases row.len() - i,
{
    if i < 0 || i >= row.len() {
        Seq::empty()
    } else {
        esc(39) + align_text_s(row[i], width_at(widths, i), align_at(alignments, i)) + fg(
            Color::DarkGrey,
        ) + "│"@ + row_cells_s(row, widths, alignments, i + 1)
    }
}

/// The body rows, from `k` on.
pub open spec fn body_rows_s(
    rows: Seq<Seq<Seq<char>>>,
    widths: Seq<int>,
    alignments: Seq<Alignment>,
    k: int,
) -> Seq<char>
    decreases rows.len() - k,
{
    if k < 0 || k >= rows.len() {
        Seq::empty()
    } else {
        "│"@ + row_cells_s(rows[k], widths, alignments, 0) + nl() + body_rows_s(
            rows,
            widths,
            alignments,
            k + 1,
        )
    }
}

/// The widths of all columns.
pub open spec fn col_widths(headers: Seq<Seq<char>>, rows: Seq<Seq<Seq<char>>>) -> Seq<int> {
    Seq::new(table_cols(headers, rows) as nat, |i: int| col_w(headers, rows, i))
}

/// A table: box-drawing borders, a bold colored header row (only when
/// headers exist) with a separator, then the body rows, each cell padded per
/// its column's alignment.
pub open spec fn table_s(
    headers: Seq<Seq<char>>,
    alignments: Seq<Alignment>,
    rows: Seq<Seq<Seq<char>>>,
) -> Seq<char> {
    if table_cols(headers, rows) == 0 {
        Seq::empty()
    } else {
        let widths = col_widths(headers, rows);
        fg(Color::DarkGrey) + "┌"@ + border_cells_s(widths, 0, '┬') + "┐"@ + nl() + (if headers.len()
            > 0 {
            fg(Color::DarkGrey) + "│"@ + header_cells_s(headers, widths, alignments, 0) + nl()
                + "├"@ + border_cells_s(widths, 0, '┼') + "┤"@ + nl()
        } else {
            Seq::empty()
        }) + body_rows_s(rows, widths, alignments, 0) + "└"@ + border_cells_s(widths, 0, '┴') + "┘"@
            + nl() + esc(39) + nl()
    }
}

/// One highlighted code line between grey borders, reset at the end.
pub open spec fn code_lines_s(lines: Seq<Seq<char>>, i: int) -> Seq<char>
    decreases lines.len() - i,
{
    if i < 0 || i >= lines.len() {
        Seq::empty()
    } else {
        fg(Color::DarkGrey) + "│ "@ + esc(39) + lines[i] + esc(0) + nl() + code_lines_s(
            lines,
            i + 1,
        )
    }
}

/// One literal line of a diagram placeholder: truncated to the box (by
/// characters, with an ellipsis) when its display width overflows, then
/// padded to the box by character count.
pub open spec fn mermaid_line_s(line: Seq<char>, bw: int) -> Seq<char> {
    let disp = if str_width(line) as int > sat_sub(bw, 3) {
        line.take(min_int(line.len() as int, sat_sub(bw, 6))) + "..."@
    } else {
        line
    };
    fg(Color::DarkGrey) + "│ "@ + fg(Color::Cyan) + disp + spaces(
        sat_sub(sat_sub(bw, 2), disp.len() as int),
    ) + fg(Color::DarkGrey) + "│"@ + nl()
}

pub open spec fn mermaid_lines_s(lines: Seq<Seq<char>>, i: int, bw: int) -> Seq<char>
    decreases lines.len() - i,
{
    if i < 0 || i >= lines.len() {
        Seq::empty()
    } else {
        mermaid_line_s(lines[i], bw) + mermaid_lines_s(lines, i + 1, bw)
    }
}

/// The diagram placeholder box: header, the literal lines, and a footer
/// hint, instead of syntax highlighting.
pub open spec fn mermaid_s(content: Seq<char>, width: int) -> Seq<char> {
    let bw = sat_sub(width, 2);
    let hint = "(View rendered diagram: mdp -b)"@;
    let pad = sat_sub(bw, hint.len() as int);
    fg(Color::Magenta) + "┌"@ + char_repeat('─', bw) + "┐"@ + nl() + "│ 🧜 Mermaid Diagram "@
        + spaces(sat_sub(bw, 21)) + "│"@ + nl() + fg(Color::DarkGrey) + "├"@ + char_repeat('─', bw)
        + "┤"@ + nl() + esc(39) + mermaid_lines_s(lines_of(content), 0, bw) + "├"@ + char_repeat(
        '─',
        bw,
    ) + "┤"@ + nl() + fg(Color::DarkGrey) + "│"@ + spaces(pad / 2) + hint + spaces(pad - pad / 2)
        + "│"@ + nl() + "└"@ + char_repeat('─', bw) + "┘"@ + nl() + esc(39) + nl()
}

/// A code block: the diagram placeholder for the reserved diagram language,
/// else a bordered box with a language label row and the externally
/// highlighted lines.
pub open spec fn code_block_s(
    language: Option<Seq<char>>,
    content: Seq<char>,
    width: int,
    dark: bool,
) -> Seq<char> {
    if language == Option::Some("mermaid"@) {
        mermaid_s(content, width)
    } else {
        let bw = sat_sub(width, 2);
        fg(Color::DarkGrey) + "┌"@ + char_repeat('─', bw) + "┐"@ + nl() + (match language {
            Option::Some(lang) => fg(Color::Cyan) + "│ "@ + lang + nl() + fg(Color::DarkGrey)
                + "├"@ + char_repeat('─', bw) + "┤"@ + nl(),
            Option::None => Seq::empty(),
        }) + esc(39) + code_lines_s(highlighted_lines(language, dark, content), 0) + fg(
            Color::DarkGrey,
        ) + "└"@ + char_repeat('─', bw) + "┘"@ + nl() + esc(39) + nl()
    }
}

/// A horizontal rule: full-width heavy rule with blank lines around it.
pub open spec fn horizontal_rule_s(width: int) -> Seq<char> {
    fg(Color::DarkGrey) + nl() + char_repeat('━', width) + nl() + nl() + esc(39)
}

/// An image: glyph, underlined alt text (or a placeholder), dimmed URL.
pub open spec fn image_s(url: Seq<char>, alt: Seq<char>) -> Seq<char> {
    fg(Color::Magenta) + "🖼  "@ + fg(Color::Blue) + esc(4) + (if alt.len() == 0 {
        "Image"@
    } else {
        alt
    }) + esc(39) + esc(0) + fg(Color::DarkGrey) + " ("@ + url + ")"@ + nl() + esc(39) + nl()
}

/// The blockquote's base style: italic, white.
pub open spec fn bq_style() -> StyleState {
    StyleState {
        bold: false,
        italic: true,
        strikethrough: false,
        underline: false,
        color: Option::Some(Color::White),
    }
}

/// The grey quote marker with its surrounding color commands.
pub open spec fn bq_marker_s() -> Seq<char> {
    fg(Color::DarkGrey) + "  ▌ "@ + esc(39)
}

/// The inline style for code spans: the surrounding style with the code
/// color overlaid.
pub open spec fn code_span_style(style: StyleState) -> StyleState {
    StyleState { color: Option::Some(Color::Yellow), ..style }
}

/// One inline element under the given active style. Composite inlines
/// diff-transition into a child style, render their children, and
/// diff-transition back, so closing a child restores the parent's style.
pub open spec fn inline_s(e: InlineV, style: StyleState) -> Seq<char>
    decreases e, 0int,
{
    match e {
        InlineV::Text(t) => t,
        InlineV::Code(c) => {
            let cs = code_span_style(style);
            diff_seq(cs, style) + "`"@ + c + "`"@ + diff_seq(style, cs)
        },
        InlineV::Strong(children) => {
            let cs = StyleState { bold: true, ..style };
            diff_seq(cs, style) + inlines_s(children, 0, cs) + diff_seq(style, cs)
        },
        InlineV::Emphasis(children) => {
            let cs = StyleState { italic: true, ..style };
            diff_seq(cs, style) + inlines_s(children, 0, cs) + diff_seq(style, cs)
        },
        InlineV::Strikethrough(children) => {
            let cs = StyleState { strikethrough: true, ..style };
            diff_seq(cs, style) + inlines_s(children, 0, cs) + diff_seq(style, cs)
        },
        InlineV::Link { url, content, .. } => {
            let cs = StyleState { underline: true, color: Option::Some(Color::Blue), ..style };
            let us = StyleState { color: Option::Some(Color::DarkGrey), ..plain_style() };
            diff_seq(cs, style) + inlines_s(content, 0, cs) + diff_seq(us, cs) + " ("@ + url + ")"@
                + diff_seq(style, us)
        },
        InlineV::FootnoteReference(label) => {
            let fs = StyleState { color: Option::Some(Color::Cyan), ..style };
            diff_seq(fs, style) + "[^"@ + label + "]"@ + diff_seq(style, fs)
        },
        InlineV::TaskListMarker(checked) => if checked {
            "[x] "@
        } else {
            "[ ] "@
        },
        InlineV::InlineHtml(s) => s,
        InlineV::Image { url, alt, .. } => alt + " ("@ + url + ")"@,
        InlineV::SoftBreak => nl(),
        InlineV::HardBreak => nl(),
    }
}

/// An inline run under one active style, from `i` on.
pub open spec fn inlines_s(content: Seq<InlineV>, i: int, style: StyleState) -> Seq<char>
    decreases content, content.len() - i,
{
    if i < 0 || i >= content.len() {
        Seq::empty()
    } else {
        inline_s(content[i], style) + inlines_s(content, i + 1, style)
    }
}

/// A paragraph's inline content inside a quote: each line break re-applies
/// the quote style fresh after the quote marker.
pub open spec fn bq_inlines_s(content: Seq<InlineV>, i: int) -> Seq<char>
    decreases content, content.len() - i,
{
    if i < 0 || i >= content.len() {
        Seq::empty()
    } else {
        (match content[i] {
            InlineV::SoftBreak => nl() + esc(0) + esc(39) + bq_marker_s() + fresh_seq(bq_style()),
            InlineV::HardBreak => nl() + esc(0) + esc(39) + bq_marker_s() + fresh_seq(bq_style()),
            _ => inline_s(content[i], bq_style()),
        }) + bq_inlines_s(content, i + 1)
    }
}

/// A blockquote's elements: each paragraph under the fresh quote style with
/// a marker on every line; other children at extra indent after their own
/// marker. A final blank line closes the quote.
pub open spec fn bq_elems_s(content: Seq<ElementV>, i: int, width: int, dark: bool) -> Seq<char>
    decreases content, content.len() - i, 1int,
{
    if i < 0 || i >= content.len() {
        nl()
    } else {
        (match content[i] {
            ElementV::Paragraph { content: inner } => bq_marker_s() + fresh_seq(bq_style())
                + bq_inlines_s(inner, 0) + nl() + esc(0) + esc(39),
            _ => bq_marker_s() + element_s(content[i], 4, width, dark),
        }) + bq_elems_s(content, i + 1, width, dark)
    }
}

/// The numbered or glyph bullet of one list item. Unordered glyphs cycle
/// with the nesting depth.
pub open spec fn bullet_s(ordered: bool, number: int, indent: int) -> Seq<char> {
    if ordered {
        crate::textutil::dec_str(number) + ". "@
    } else {
        if indent / 2 == 0 {
            "• "@
        } else if indent / 2 == 1 {
            "◦ "@
        } else {
            "▪ "@
        }
    }
}

/// The ordered-list counter advances by one per item, capped at the integer
/// limit.
pub open spec fn sat_inc64(n: int) -> int {
    if n < u64::MAX {
        n + 1
    } else {
        n
    }
}

/// One item's blocks. The bullet is printed before the first block; a
/// paragraph renders on the bullet's line, a nested list recurses at two
/// more columns of indent, anything else starts on the following line.
pub open spec fn item_elems_s(
    content: Seq<ElementV>,
    j: int,
    first: bool,
    indent: int,
    bullet: Seq<char>,
    width: int,
    dark: bool,
) -> Seq<char>
    decreases content, content.len() - j, 1int,
{
    if j < 0 || j >= content.len() {
        if first {
            fg(Color::Cyan) + spaces(indent) + bullet + esc(39) + nl()
        } else {
            Seq::empty()
        }
    } else {
        (if first {
            fg(Color::Cyan) + spaces(indent) + bullet + esc(39)
        } else {
            Seq::empty()
        }) + (match content[j] {
            ElementV::Paragraph { content: inner } => inlines_s(inner, 0, plain_style()) + nl(),
            ElementV::List { ordered, start, items } => lists_s(
                items,
                0,
                ordered,
                match start {
                    Option::Some(n) => n as int,
                    Option::None => 1,
                },
                sat_add(indent, 2),
                width,
                dark,
            ),
            _ => nl() + element_s(content[j], sat_add(indent, 2), width, dark),
        }) + item_elems_s(content, j + 1, false, indent, bullet, width, dark)
    }
}

/// A list's items from `i` on, with the running ordered counter. A
/// top-level list ends with a blank line.
pub open spec fn lists_s(
    items: Seq<crate::ast::ListItemV>,
    i: int,
    ordered: bool,
    number: int,
    indent: int,
    width: int,
    dark: bool,
) -> Seq<char>
    decreases items, items.len() - i, 2int,
{
    if i < 0 || i >= items.len() {
        if indent == 0 {
            nl()
        } else {
            Seq::empty()
        }
    } else {
        item_elems_s(items[i].content, 0, true, indent, bullet_s(ordered, number, indent), width, dark)
            + lists_s(items, i + 1, ordered, sat_inc64(number), indent, width, dark)
    }
}

/// One block element, dispatched on its kind.
pub open spec fn element_s(e: ElementV, indent: int, width: int, dark: bool) -> Seq<char>
    decreases e, 0int, 0int,
{
    match e {
        ElementV::Heading { level, content } => heading_s(level, content, width),
        ElementV::Paragraph { content } => spaces(indent) + inlines_s(content, 0, plain_style())
            + nl() + nl(),
        ElementV::CodeBlock { language, content } => code_block_s(language, content, width, dark),
        ElementV::List { ordered, start, items } => lists_s(
            items,
            0,
            ordered,
            match start {
                Option::Some(n) => n as int,
                Option::None => 1,
            },
            indent,
            width,
            dark,
        ),
        ElementV::Table { headers, alignments, rows } => table_s(headers, alignments, rows),
        ElementV::BlockQuote { content } => bq_elems_s(content, 0, width, dark),
        ElementV::HorizontalRule => horizontal_rule_s(width),
        ElementV::Image { url, alt, .. } => image_s(url, alt),
        ElementV::FootnoteDefinition { label, content } => fg(Color::Cyan) + "[^"@ + label + "]: "@
            + esc(39) + (if content.len() == 1 && (content[0] matches ElementV::Paragraph { .. }) {
            (match content[0] {
                ElementV::Paragraph { content: inner } => inlines_s(inner, 0, plain_style()),
                _ => Seq::empty(),
            }) + nl() + nl()
        } else {
            nl() + elems_at_s(content, 0, 4, width, dark)
        }),
        ElementV::Html(_) => Seq::empty(),
    }
}

/// A run of block elements at one indent.
pub open spec fn elems_at_s(
    content: Seq<ElementV>,
    i: int,
    indent: int,
    width: int,
    dark: bool,
) -> Seq<char>
    decreases content, content.len() - i, 1int,
{
    if i < 0 || i >= content.len() {
        Seq::empty()
    } else {
        element_s(content[i], indent, width, dark) + elems_at_s(content, i + 1, indent, width, dark)
    }
}

/// The smallest heading level in the table of contents, from `i` on.
pub open spec fn toc_min_level(toc: Seq<TocEntryV>, i: int) -> int
    decreases toc.len() - i,
{
    if i < 0 || i >= toc.len() {
        255
    } else {
        min_int(toc[i].level as int, toc_min_level(toc, i + 1))
    }
}

pub open spec fn toc_bullet(level: u8) -> Seq<char> {
    if level == 1 {
        "●"@
    } else if level == 2 {
        "○"@
    } else if level == 3 {
        "◆"@
    } else {
        "◇"@
    }
}

/// The entries of the table of contents, indented relative to the smallest
/// level present.
pub open spec fn toc_entries_s(toc: Seq<TocEntryV>, i: int, min_level: int) -> Seq<char>
    decreases toc.len() - i,
{
    if i < 0 || i >= toc.len() {
        Seq::empty()
    } else {
        let e = toc[i];
        fg(Color::Cyan) + char_repeat(' ', 2 * sat_sub(e.level as int, min_level)) + toc_bullet(
            e.level,
        ) + " "@ + esc(39) + e.text + nl() + toc_entries_s(toc, i + 1, min_level)
    }
}

/// The rendered table of contents: header, rule, entries, closing rule.
pub open spec fn toc_s(toc: Seq<TocEntryV>, width: int) -> Seq<char> {
    let min_level = if toc.len() > 0 {
        toc_min_level(toc, 0)
    } else {
        1
    };
    nl() + fg(Color::Cyan) + esc(1) + "📑 Table of Contents"@ + nl() + esc(39) + esc(0) + fg(
        Color::DarkGrey,
    ) + char_repeat('─', min_int(width, 30)) + nl() + esc(39) + toc_entries_s(toc, 0, min_level)
        + nl() + fg(Color::DarkGrey) + char_repeat('━', min_int(width, 50)) + nl() + esc(39) + nl()
}

/// The non-footnote elements, in order.
pub open spec fn main_elems_s(elements: Seq<ElementV>, i: int, width: int, dark: bool) -> Seq<char>
    decreases elements, elements.len() - i, 1int,
{
    if i < 0 || i >= elements.len() {
        Seq::empty()
    } else {
        (match elements[i] {
            ElementV::FootnoteDefinition { .. } => Seq::empty(),
            _ => element_s(elements[i], 0, width, dark),
        }) + main_elems_s(elements, i + 1, width, dark)
    }
}

/// The deferred footnote definitions, in order.
pub open spec fn footnote_elems_s(elements: Seq<ElementV>, i: int, width: int, dark: bool) -> Seq<
    char,
>
    decreases elements, elements.len() - i, 1int,
{
    if i < 0 || i >= elements.len() {
        Seq::empty()
    } else {
        (match elements[i] {
            ElementV::FootnoteDefinition { .. } => element_s(elements[i], 0, width, dark),
            _ => Seq::empty(),
        }) + footnote_elems_s(elements, i + 1, width, dark)
    }
}

pub open spec fn is_footnote_def(e: ElementV) -> bool {
    e matches ElementV::FootnoteDefinition { .. }
}

pub open spec fn has_footnote(elements: Seq<ElementV>) -> bool {
    exists|i: int| 0 <= i < elements.len() && #[trigger] is_footnote_def(elements[i])
}

/// The whole rendered document: the table of contents when asked for and
/// nonempty, the non-footnote elements in order, then — when any footnote
/// definition exists — a grey rule and the footnote definitions in order.
pub open spec fn render_to_s(doc: DocumentV, show_toc: bool, width: int, dark: bool) -> Seq<char> {
    (if show_toc && toc_of(doc).len() > 0 {
        toc_s(toc_of(doc), width)
    } else {
        Seq::empty()
    }) + main_elems_s(doc.elements, 0, width, dark) + (if has_footnote(doc.elements) {
        fg(Color::DarkGrey) + char_repeat('─', min_int(width, 40)) + nl() + esc(39)
            + footnote_elems_s(doc.elements, 0, width, dark)
    } else {
        Seq::empty()
    })
}

/// Appends a set-foreground-color command.
fn push_fg(out: &mut Vec<char>, c: Color)
    ensures
        final(out)@ == old(out)@ + fg(c),
{
    let code = color_sgr(c);
    push_esc(code, out);
}

/// Appends a heading.
#[verifier::rlimit(30)]
fn render_heading(out: &mut Vec<char>, level: u8, content: &String, width: usize)
    ensures
        final(out)@ == old(out)@ + heading_s(level, content@, width as int),
{
    let color = if level == 1 {
        Color::Magenta
    } else if level == 2 {
        Color::Cyan
    } else if level == 3 {
        Color::Blue
    } else if level == 4 {
        Color::Green
    } else if level == 5 {
        Color::Yellow
    } else {
        Color::White
    };
    out.push('\n');
    push_fg(out, color);
    push_esc(1, out);
    if level == 1 {
        push_str_chars(out, "█ ");
    } else if level == 2 {
        push_str_chars(out, "▓ ");
    } else if level == 3 {
        push_str_chars(out, "▒ ");
    } else if level == 4 {
        push_str_chars(out, "░ ");
    } else if level == 5 {
        push_str_chars(out, "• ");
    } else {
        push_str_chars(out, "· ");
    }
    if level <= 2 {
        push_esc(4, out);
    }
    push_str_chars(out, content.as_str());
    out.push('\n');
    push_esc(39, out);
    push_esc(0, out);
    if level == 1 {
        push_fg(out, Color::DarkGrey);
        let cw = display_width(content.as_str());
        let n = min_usize(width, sat_add_usize(cw, 4));
        push_repeat(out, '─', n);
        out.push('\n');
        push_esc(39, out);
    }
    out.push('\n');
    proof {
        assert(out@ =~= old(out)@ + heading_s(level, content@, width as int));
    }
}

/// Appends one cell, padded to its column width per its alignment.
fn push_aligned(out: &mut Vec<char>, text: &String, width: usize, alignment: Alignment)
    ensures
        final(out)@ == old(out)@ + align_text_s(text@, width as int, alignment),
{
    let tw = display_width(text.as_str());
    let padding = sat_sub_usize(width, tw);
    match alignment {
        Alignment::Right => {
            push_repeat(out, ' ', sat_sub_usize(padding, 1));
            push_str_chars(out, text.as_str());
            push_str_chars(out, " ");
        },
        Alignment::Center => {
            push_repeat(out, ' ', padding / 2);
            push_str_chars(out, text.as_str());
            push_repeat(out, ' ', padding - padding / 2);
        },
        _ => {
            push_str_chars(out, " ");
            push_str_chars(out, text.as_str());
            push_repeat(out, ' ', sat_sub_usize(padding, 1));
        },
    }
    proof {
        assert(out@ =~= old(out)@ + align_text_s(text@, width as int, alignment));
    }
}

proof fn lemma_rows_max_w_nonneg(rows: Seq<Seq<Seq<char>>>, k: int, i: int)
    ensures
        rows_max_w(rows, k, i) >= 0,
    decreases rows.len() - k,
{
    if 0 <= k < rows.len() {
        lemma_rows_max_w_nonneg(rows, k + 1, i);
    }
}

/// The rendered width of every column of a table: the widest content,
/// floored at three, plus two columns of padding.
pub fn column_widths(headers: &Vec<String>, rows: &Vec<Vec<String>>) -> (r: Vec<usize>)
    ensures
        r@.len() == table_cols(strings_view(headers@), rows_view(rows@)),
        forall|i: int|
            0 <= i < r@.len() ==> r@[i] as int == col_w(strings_view(headers@), rows_view(rows@), i),
{
    let ghost hv = strings_view(headers@);
    let ghost rv = rows_view(rows@);
    let first_row_len = if rows.len() > 0 {
        rows[0].len()
    } else {
        0
    };
    let num_cols = if headers.len() > first_row_len {
        headers.len()
    } else {
        first_row_len
    };
    let mut r: Vec<usize> = Vec::new();
    let mut i: usize = 0;
    while i < num_cols
        invariant
            i <= num_cols,
            hv == strings_view(headers@),
            rv == rows_view(rows@),
            num_cols as int == table_cols(hv, rv),
            r@.len() == i,
            forall|j: int| 0 <= j < i as int ==> r@[j] as int == col_w(hv, rv, j),
        decreases num_cols - i,
    {
        let hw: usize = if i < headers.len() {
            display_width(headers[i].as_str())
        } else {
            0
        };
        let mut acc: usize = 0;
        let mut k: usize = 0;
        proof {
            lemma_rows_max_w_nonneg(rv, 0, i as int);
        }
        while k < rows.len()
            invariant
                k <= rows.len(),
                rv == rows_view(rows@),
                0 <= i < num_cols,
                imax(acc as int, rows_max_w(rv, k as int, i as int)) == rows_max_w(
                    rv,
                    0,
                    i as int,
                ),
            decreases rows.len() - k,
        {
            let cw: usize = if i < rows[k].len() {
                display_width(rows[k][i].as_str())
            } else {
                0
            };
            if cw > acc {
                acc = cw;
            }
            k += 1;
        }
        proof {
            assert(rows_max_w(rv, rows@.len() as int, i as int) == 0);
            assert(acc as int == rows_max_w(rv, 0, i as int));
        }
        let base = if hw > acc {
            hw
        } else {
            acc
        };
        let floored = if base > 3 {
            base
        } else {
            3
        };
        let w = sat_add_usize(floored, 2);
        r.push(w);
        proof {
            assert(r@[i as int] as int == col_w(hv, rv, i as int));
        }
        i += 1;
    }
    r
}

/// Appends one border row's column segments.
fn push_border_cells(out: &mut Vec<char>, widths: &Vec<usize>, joint: char)
    ensures
        final(out)@ == old(out)@ + border_cells_s(crate::textutil::usizes_view(widths@), 0, joint),
{
    let ghost wv = crate::textutil::usizes_view(widths@);
    let mut i: usize = 0;
    while i < widths.len()
        invariant
            i <= widths.len(),
            wv == crate::textutil::usizes_view(widths@),
            old(out)@ + border_cells_s(wv, 0, joint) == out@ + border_cells_s(wv, i as int, joint),
        decreases widths.len() - i,
    {
        let ghost opre = out@;
        push_repeat(out, '─', widths[i]);
        if i + 1 < widths.len() {
            out.push(joint);
        }
        proof {
            let piece = char_repeat('─', wv[i as int]) + (if i as int + 1 < wv.len() {
                seq![joint]
            } else {
                Seq::<char>::empty()
            });
            assert(out@ =~= opre + piece);
            assert(border_cells_s(wv, i as int, joint) == piece + border_cells_s(
                wv,
                i as int + 1,
                joint,
            ));
            vstd::seq_lib::lemma_concat_associative(
                opre,
                piece,
                border_cells_s(wv, i as int + 1, joint),
            );
        }
        i += 1;
    }
}

/// Appends a table.
#[verifier::rlimit(50)]
fn render_table(
    out: &mut Vec<char>,
    headers: &Vec<String>,
    alignments: &Vec<Alignment>,
    rows: &Vec<Vec<String>>,
)
    ensures
        final(out)@ == old(out)@ + table_s(strings_view(headers@), alignments@, rows_view(rows@)),
{
    let ghost hv = strings_view(headers@);
    let ghost av = alignments@;
    let ghost rv = rows_view(rows@);
    let widths = column_widths(headers, rows);
    proof {
        assert(crate::textutil::usizes_view(widths@) =~= col_widths(hv, rv));
    }
    let ghost wv = col_widths(hv, rv);
    if widths.len() == 0 {
        return ;
    }
    push_fg(out, Color::DarkGrey);
    push_str_chars(out, "┌");
    push_border_cells(out, &widths, '┬');
    push_str_chars(out, "┐");
    out.push('\n');
    let ghost headpre = out@;
    if headers.len() > 0 {
        push_fg(out, Color::DarkGrey);
        push_str_chars(out, "│");
        let mut i: usize = 0;
        let ghost hdr0 = out@;
        while i < headers.len()
            invariant
                i <= headers.len(),
                hv == strings_view(headers@),
                av == alignments@,
                rv == rows_view(rows@),
                crate::textutil::usizes_view(widths@) == wv,
                widths@.len() == wv.len(),
                hdr0 + header_cells_s(hv, wv, av, 0) == out@ + header_cells_s(hv, wv, av, i as int),
            decreases headers.len() - i,
        {
            let ghost opre = out@;
            let w = if i < widths.len() {
                widths[i]
            } else {
                10
            };
            let align = if i < alignments.len() {
                alignments[i]
            } else {
                Alignment::Left
            };
            push_fg(out, Color::Cyan);
            push_esc(1, out);
            push_aligned(out, &headers[i], w, align);
            push_esc(39, out);
            push_esc(0, out);
            push_fg(out, Color::DarkGrey);
            push_str_chars(out, "│");
            proof {
                let piece = fg(Color::Cyan) + esc(1) + align_text_s(
                    hv[i as int],
                    width_at(wv, i as int),
                    align_at(av, i as int),
                ) + esc(39) + esc(0) + fg(Color::DarkGrey) + "│"@;
                assert(w as int == width_at(wv, i as int));
                assert(align == align_at(av, i as int));
                assert(out@ =~= opre + piece);
                assert(header_cells_s(hv, wv, av, i as int) == piece + header_cells_s(
                    hv,
                    wv,
                    av,
                    i as int + 1,
                ));
                vstd::seq_lib::lemma_concat_associative(
                    opre,
                    piece,
                    header_cells_s(hv, wv, av, i as int + 1),
                );
            }
            i += 1;
        }
        proof {
            assert(header_cells_s(hv, wv, av, headers@.len() as int) == Seq::<char>::empty());
            assert(out@ =~= hdr0 + header_cells_s(hv, wv, av, 0));
        }
        out.push('\n');
        push_str_chars(out, "├");
        push_border_cells(out, &widths, '┼');
        push_str_chars(out, "┤");
        out.push('\n');
    }
    proof {
        let chunk = if hv.len() > 0 {
            fg(Color::DarkGrey) + "│"@ + header_cells_s(hv, wv, av, 0) + nl() + "├"@
                + border_cells_s(wv, 0, '┼') + "┤"@ + nl()
        } else {
            Seq::<char>::empty()
        };
        assert(out@ =~= headpre + chunk);
    }
    let mut k: usize = 0;
    let ghost body0 = out@;
    while k < rows.len()
        invariant
            k <= rows.len(),
            hv == strings_view(headers@),
            av == alignments@,
            rv == rows_view(rows@),
            crate::textutil::usizes_view(widths@) == wv,
            widths@.len() == wv.len(),
            body0 + body_rows_s(rv, wv, av, 0) == out@ + body_rows_s(rv, wv, av, k as int),
        decreases rows.len() - k,
    {
        let ghost rowpre = out@;
        push_str_chars(out, "│");
        let row = &rows[k];
        let mut i: usize = 0;
        let ghost cells0 = out@;
        while i < row.len()
            invariant
                i <= row.len(),
                row == &rows[k as int],
                k < rows.len(),
                hv == strings_view(headers@),
                av == alignments@,
                rv == rows_view(rows@),
                crate::textutil::usizes_view(widths@) == wv,
                widths@.len() == wv.len(),
                cells0 + row_cells_s(rv[k as int], wv, av, 0) == out@ + row_cells_s(
                    rv[k as int],
                    wv,
                    av,
                    i as int,
                ),
            decreases row.len() - i,
        {
            let ghost opre = out@;
            let w = if i < widths.len() {
                widths[i]
            } else {
                10
            };
            let align = if i < alignments.len() {
                alignments[i]
            } else {
                Alignment::Left
            };
            push_esc(39, out);
            push_aligned(out, &row[i], w, align);
            push_fg(out, Color::DarkGrey);
            push_str_chars(out, "│");
            proof {
                let piece = esc(39) + align_text_s(
                    rv[k as int][i as int],
                    width_at(wv, i as int),
                    align_at(av, i as int),
                ) + fg(Color::DarkGrey) + "│"@;
                assert(rv[k as int][i as int] == row@[i as int]@);
                assert(out@ =~= opre + piece);
                assert(row_cells_s(rv[k as int], wv, av, i as int) == piece + row_cells_s(
                    rv[k as int],
                    wv,
                    av,
                    i as int + 1,
                ));
                vstd::seq_lib::lemma_concat_associative(
                    opre,
                    piece,
                    row_cells_s(rv[k as int], wv, av, i as int + 1),
                );
            }
            i += 1;
        }
        proof {
            assert(row_cells_s(rv[k as int], wv, av, row@.len() as int) == Seq::<char>::empty());
            assert(out@ =~= cells0 + row_cells_s(rv[k as int], wv, av, 0));
        }
        out.push('\n');
        proof {
            let piece = "│"@ + row_cells_s(rv[k as int], wv, av, 0) + nl();
            assert(out@ =~= rowpre + piece);
            assert(body_rows_s(rv, wv, av, k as int) == piece + body_rows_s(
                rv,
                wv,
                av,
                k as int + 1,
            ));
            vstd::seq_lib::lemma_concat_associative(
                rowpre,
                piece,
                body_rows_s(rv, wv, av, k as int + 1),
            );
        }
        k += 1;
    }
    proof {
        assert(body_rows_s(rv, wv, av, rows@.len() as int) == Seq::<char>::empty());
        assert(out@ =~= body0 + body_rows_s(rv, wv, av, 0));
    }
    push_str_chars(out, "└");
    push_border_cells(out, &widths, '┴');
    push_str_chars(out, "┘");
    out.push('\n');
    push_esc(39, out);
    out.push('\n');
    proof {
        let p1 = fg(Color::DarkGrey);
        let p2 = "┌"@;
        let p3 = border_cells_s(wv, 0, '┬');
        let p4 = "┐"@;
        let p5 = nl();
        let p6 = if hv.len() > 0 {
            fg(Color::DarkGrey) + "│"@ + header_cells_s(hv, wv, av, 0) + nl() + "├"@
                + border_cells_s(wv, 0, '┼') + "┤"@ + nl()
        } else {
            Seq::<char>::empty()
        };
        let p7 = body_rows_s(rv, wv, av, 0);
        let p8 = "└"@;
        let p9 = border_cells_s(wv, 0, '┴');
        let p10 = "┘"@;
        let p11 = nl();
        let p12 = esc(39);
        let p13 = nl();
        assert(out@ == (((((((((((((old(out)@ + p1) + p2) + p3) + p4) + p5) + p6) + p7) + p8) + p9) + p10) + p11) + p12) + p13));
        let g1 = p1;
        vstd::seq_lib::lemma_concat_associative(old(out)@, g1, p2);
        let g2 = g1 + p2;
        vstd::seq_lib::lemma_concat_associative(old(out)@, g2, p3);
        let g3 = g2 + p3;
        vstd::seq_lib::lemma_concat_associative(old(out)@, g3, p4);
        let g4 = g3 + p4;
        vstd::seq_lib::lemma_concat_associative(old(out)@, g4, p5);
        let g5 = g4 + p5;
        vstd::seq_lib::lemma_concat_associative(old(out)@, g5, p6);
        let g6 = g5 + p6;
        vstd::seq_lib::lemma_concat_associative(old(out)@, g6, p7);
        let g7 = g6 + p7;
        vstd::seq_lib::lemma_concat_associative(old(out)@, g7, p8);
        let g8 = g7 + p8;
        vstd::seq_lib::lemma_concat_associative(old(out)@, g8, p9);
        let g9 = g8 + p9;
        vstd::seq_lib::lemma_concat_associative(old(out)@, g9, p10);
        let g10 = g9 + p10;
        vstd::seq_lib::lemma_concat_associative(old(out)@, g10, p11);
        let g11 = g10 + p11;
        vstd::seq_lib::lemma_concat_associative(old(out)@, g11, p12);
        let g12 = g11 + p12;
        vstd::seq_lib::lemma_concat_associative(old(out)@, g12, p13);
        let g13 = g12 + p13;
        assert(out@ == old(out)@ + g13);
        assert(g13 == table_s(hv, av, rv));
        assert(out@ == old(out)@ + table_s(hv, av, rv));
    }
}

/// Appends the diagram placeholder box.
#[verifier::rlimit(100)]
fn render_mermaid_placeholder(out: &mut Vec<char>, content: &String, width: usize)
    ensures
        final(out)@ == old(out)@ + mermaid_s(content@, width as int),
{
    let bw = sat_sub_usize(width, 2);
    push_fg(out, Color::Magenta);
    push_str_chars(out, "┌");
    push_repeat(out, '─', bw);
    push_str_chars(out, "┐");
    out.push('\n');
    push_str_chars(out, "│ 🧜 Mermaid Diagram ");
    push_repeat(out, ' ', sat_sub_usize(bw, 21));
    push_str_chars(out, "│");
    out.push('\n');
    push_fg(out, Color::DarkGrey);
    push_str_chars(out, "├");
    push_repeat(out, '─', bw);
    push_str_chars(out, "┤");
    out.push('\n');
    push_esc(39, out);
    let ghost mid0 = out@;
    let lines = split_lines(content.as_str());
    let ghost lv = lines_of(content@);
    let mut i: usize = 0;
    while i < lines.len()
        invariant
            i <= lines.len(),
            lines@.len() == lv.len(),
            forall|j: int| 0 <= j < lines@.len() ==> lines@[j]@ == lv[j],
            mid0 + mermaid_lines_s(lv, 0, bw as int) == out@ + mermaid_lines_s(
                lv,
                i as int,
                bw as int,
            ),
        decreases lines.len() - i,
    {
        let ghost opre = out@;
        let line = &lines[i];
        push_fg(out, Color::DarkGrey);
        push_str_chars(out, "│ ");
        push_fg(out, Color::Cyan);
        let lw = display_width(line.as_str());
        let cs = crate::textutil::str_chars(line.as_str());
        let ghost dispv: Seq<char> = if str_width(lv[i as int]) as int > sat_sub(bw as int, 3) {
            lv[i as int].take(min_int(lv[i as int].len() as int, sat_sub(bw as int, 6))) + "..."@
        } else {
            lv[i as int]
        };
        let mut disp: Vec<char> = Vec::new();
        if lw > sat_sub_usize(bw, 3) {
            let take_n = min_usize(cs.len(), sat_sub_usize(bw, 6));
            let mut t: usize = 0;
            while t < take_n
                invariant
                    t <= take_n <= cs.len(),
                    cs@ == lv[i as int],
                    disp@ == cs@.take(t as int),
                decreases take_n - t,
            {
                disp.push(cs[t]);
                proof {
                    assert(disp@ =~= cs@.take(t + 1 as int));
                }
                t += 1;
            }
            push_str_chars(&mut disp, "...");
        } else {
            let mut t: usize = 0;
            while t < cs.len()
                invariant
                    t <= cs.len(),
                    cs@ == lv[i as int],
                    disp@ == cs@.take(t as int),
                decreases cs.len() - t,
            {
                disp.push(cs[t]);
                proof {
                    assert(disp@ =~= cs@.take(t + 1 as int));
                }
                t += 1;
            }
            proof {
                assert(cs@.take(cs@.len() as int) =~= cs@);
            }
        }
        proof {
            assert(disp@ == dispv);
        }
        let mut disp2 = disp;
        let dlen = disp2.len();
        out.append(&mut disp2);
        push_repeat(out, ' ', sat_sub_usize(sat_sub_usize(bw, 2), dlen));
        push_fg(out, Color::DarkGrey);
        push_str_chars(out, "│");
        out.push('\n');
        proof {
            let piece = mermaid_line_s(lv[i as int], bw as int);
            assert(out@ =~= opre + piece);
            assert(mermaid_lines_s(lv, i as int, bw as int) == piece + mermaid_lines_s(
                lv,
                i as int + 1,
                bw as int,
            ));
            vstd::seq_lib::lemma_concat_associative(
                opre,
                piece,
                mermaid_lines_s(lv, i as int + 1, bw as int),
            );
        }
        i += 1;
    }
    proof {
        assert(mermaid_lines_s(lv, lv.len() as int, bw as int) == Seq::<char>::empty());
        assert(out@ =~= mid0 + mermaid_lines_s(lv, 0, bw as int));
    }
    push_str_chars(out, "├");
    push_repeat(out, '─', bw);
    push_str_chars(out, "┤");
    out.push('\n');
    push_fg(out, Color::DarkGrey);
    push_str_chars(out, "│");
    let hint_chars = crate::textutil::str_chars("(View rendered diagram: mdp -b)");
    let pad = sat_sub_usize(bw, hint_chars.len());
    push_repeat(out, ' ', pad / 2);
    push_str_chars(out, "(View rendered diagram: mdp -b)");
    push_repeat(out, ' ', pad - pad / 2);
    push_str_chars(out, "│");
    out.push('\n');
    push_str_chars(out, "└");
    push_repeat(out, '─', bw);
    push_str_chars(out, "┘");
    out.push('\n');
    push_esc(39, out);
    out.push('\n');
    proof {
        let bwv = sat_sub(width as int, 2);
        let padv = sat_sub(bwv, "(View rendered diagram: mdp -b)"@.len() as int);
        let p1 = fg(Color::Magenta);
        let p2 = "┌"@;
        let p3 = char_repeat('─', bwv);
        let p4 = "┐"@;
        let p5 = nl();
        let p6 = "│ 🧜 Mermaid Diagram "@;
        let p7 = spaces(sat_sub(bwv, 21));
        let p8 = "│"@;
        let p9 = nl();
        let p10 = fg(Color::DarkGrey);
        let p11 = "├"@;
        let p12 = char_repeat('─', bwv);
        let p13 = "┤"@;
        let p14 = nl();
        let p15 = esc(39);
        let p16 = mermaid_lines_s(lines_of(content@), 0, bwv);
        let p17 = "├"@;
        let p18 = char_repeat('─', bwv);
        let p19 = "┤"@;
        let p20 = nl();
        let p21 = fg(Color::DarkGrey);
        let p22 = "│"@;
        let p23 = spaces(padv / 2);
        let p24 = "(View rendered diagram: mdp -b)"@;
        let p25 = spaces(padv - padv / 2);
        let p26 = "│"@;
        let p27 = nl();
        let p28 = "└"@;
        let p29 = char_repeat('─', bwv);
        let p30 = "┘"@;
        let p31 = nl();
        let p32 = esc(39);
        let p33 = nl();
        assert(out@ == (((((((((((((((((((((((((((((((((old(out)@ + p1) + p2) + p3) + p4) + p5) + p6) + p7) + p8) + p9) + p10) + p11) + p12) + p13) + p14) + p15) + p16) + p17) + p18) + p19) + p20) + p21) + p22) + p23) + p24) + p25) + p26) + p27) + p28) + p29) + p30) + p31) + p32) + p33));
        let g1 = p1;
        vstd::seq_lib::lemma_concat_associative(old(out)@, g1, p2);
        let g2 = g1 + p2;
        vstd::seq_lib::lemma_concat_associative(old(out)@, g2, p3);
        let g3 = g2 + p3;
        vstd::seq_lib::lemma_concat_associative(old(out)@, g3, p4);
        let g4 = g3 + p4;
        vstd::seq_lib::lemma_concat_associative(old(out)@, g4, p5);
        let g5 = g4 + p5;
        vstd::seq_lib::lemma_concat_associative(old(out)@, g5, p6);
        let g6 = g5 + p6;
        vstd::seq_lib::lemma_concat_associative(old(out)@, g6, p7);
        let g7 = g6 + p7;
        vstd::seq_lib::lemma_concat_associative(old(out)@, g7, p8);
        let g8 = g7 + p8;
        vstd::seq_lib::lemma_concat_associative(old(out)@, g8, p9);
        let g9 = g8 + p9;
        vstd::seq_lib::lemma_concat_associative(old(out)@, g9, p10);
        let g10 = g9 + p10;
        vstd::seq_lib::lemma_concat_associative(old(out)@, g10, p11);
        let g11 = g10 + p11;
        vstd::seq_lib::lemma_concat_associative(old(out)@, g11, p12);
        let g12 = g11 + p12;
        vstd::seq_lib::lemma_concat_associative(old(out)@, g12, p13);
        let g13 = g12 + p13;
        vstd::seq_lib::lemma_concat_associative(old(out)@, g13, p14);
        let g14 = g13 + p14;
        vstd::seq_lib::lemma_concat_associative(old(out)@, g14, p15);
        let g15 = g14 + p15;
        vstd::seq_lib::lemma_concat_associative(old(out)@, g15, p16);
        let g16 = g15 + p16;
        vstd::seq_lib::lemma_concat_associative(old(out)@, g16, p17);
        let g17 = g16 + p17;
        vstd::seq_lib::lemma_concat_associative(old(out)@, g17, p18);
        let g18 = g17 + p18;
        vstd::seq_lib::lemma_concat_associative(old(out)@, g18, p19);
        let g19 = g18 + p19;
        vstd::seq_lib::lemma_concat_associative(old(out)@, g19, p20);
        let g20 = g19 + p20;
        vstd::seq_lib::lemma_concat_associative(old(out)@, g20, p21);
        let g21 = g20 + p21;
        vstd::seq_lib::lemma_concat_associative(old(out)@, g21, p22);
        let g22 = g21 + p22;
        vstd::seq_lib::lemma_concat_associative(old(out)@, g22, p23);
        let g23 = g22 + p23;
        vstd::seq_lib::lemma_concat_associative(old(out)@, g23, p24);
        let g24 = g23 + p24;
        vstd::seq_lib::lemma_concat_associative(old(out)@, g24, p25);
        let g25 = g24 + p25;
        vstd::seq_lib::lemma_concat_associative(old(out)@, g25, p26);
        let g26 = g25 + p26;
        vstd::seq_lib::lemma_concat_associative(old(out)@, g26, p27);
        let g27 = g26 + p27;
        vstd::seq_lib::lemma_concat_associative(old(out)@, g27, p28);
        let g28 = g27 + p28;
        vstd::seq_lib::lemma_concat_associative(old(out)@, g28, p29);
        let g29 = g28 + p29;
        vstd::seq_lib::lemma_concat_associative(old(out)@, g29, p30);
        let g30 = g29 + p30;
        vstd::seq_lib::lemma_concat_associative(old(out)@, g30, p31);
        let g31 = g30 + p31;
        vstd::seq_lib::lemma_concat_associative(old(out)@, g31, p32);
        let g32 = g31 + p32;
        vstd::seq_lib::lemma_concat_associative(old(out)@, g32, p33);
        let g33 = g32 + p33;
        assert(out@ == old(out)@ + g33);
        assert(g33 == mermaid_s(content@, width as int));
        assert(out@ == old(out)@ + mermaid_s(content@, width as int));
    }
}

/// Appends a code block.
#[verifier::rlimit(50)]
fn render_code_block(
    out: &mut Vec<char>,
    language: &Option<String>,
    content: &String,
    width: usize,
    dark: bool,
)
    ensures
        final(out)@ == old(out)@ + code_block_s(
            crate::ast::opt_string_view(*language),
            content@,
            width as int,
            dark,
        ),
{
    let ghost lang_v = crate::ast::opt_string_view(*language);
    let is_mermaid = match language {
        Option::Some(l) => str_eq(l.as_str(), "mermaid"),
        Option::None => false,
    };
    if is_mermaid {
        render_mermaid_placeholder(out, content, width);
        return ;
    }
    let bw = sat_sub_usize(width, 2);
    push_fg(out, Color::DarkGrey);
    push_str_chars(out, "┌");
    push_repeat(out, '─', bw);
    push_str_chars(out, "┐");
    out.push('\n');
    let ghost langpre = out@;
    match language {
        Option::Some(lang) => {
            push_fg(out, Color::Cyan);
            push_str_chars(out, "│ ");
            push_str_chars(out, lang.as_str());
            out.push('\n');
            push_fg(out, Color::DarkGrey);
            push_str_chars(out, "├");
            push_repeat(out, '─', bw);
            push_str_chars(out, "┤");
            out.push('\n');
        },
        Option::None => (),
    }
    proof {
        let chunk = match lang_v {
            Option::Some(l) => fg(Color::Cyan) + "│ "@ + l + nl() + fg(Color::DarkGrey) + "├"@
                + char_repeat('─', sat_sub(width as int, 2)) + "┤"@ + nl(),
            Option::None => Seq::<char>::empty(),
        };
        assert(out@ =~= langpre + chunk);
    }
    push_esc(39, out);
    let lang_ref = match language {
        Option::Some(l) => Option::Some(l.as_str()),
        Option::None => Option::None,
    };
    let lines = highlight_block(lang_ref, dark, content.as_str());
    let ghost lv = highlighted_lines(lang_v, dark, content@);
    proof {
        assert(opt_str_view(lang_ref) == lang_v);
    }
    let mut i: usize = 0;
    let ghost mid0 = out@;
    while i < lines.len()
        invariant
            i <= lines.len(),
            lines@.len() == lv.len(),
            forall|j: int| 0 <= j < lines@.len() ==> lines@[j]@ == lv[j],
            mid0 + code_lines_s(lv, 0) == out@ + code_lines_s(lv, i as int),
        decreases lines.len() - i,
    {
        let ghost opre = out@;
        push_fg(out, Color::DarkGrey);
        push_str_chars(out, "│ ");
        push_esc(39, out);
        push_str_chars(out, lines[i].as_str());
        push_esc(0, out);
        out.push('\n');
        proof {
            let piece = fg(Color::DarkGrey) + "│ "@ + esc(39) + lv[i as int] + esc(0) + nl();
            assert(out@ =~= opre + piece);
            assert(code_lines_s(lv, i as int) == piece + code_lines_s(lv, i as int + 1));
            vstd::seq_lib::lemma_concat_associative(opre, piece, code_lines_s(lv, i as int + 1));
        }
        i += 1;
    }
    proof {
        assert(code_lines_s(lv, lv.len() as int) == Seq::<char>::empty());
        assert(out@ =~= mid0 + code_lines_s(lv, 0));
    }
    push_fg(out, Color::DarkGrey);
    push_str_chars(out, "└");
    push_repeat(out, '─', bw);
    push_str_chars(out, "┘");
    out.push('\n');
    push_esc(39, out);
    out.push('\n');
    proof {
        let bwv = sat_sub(width as int, 2);
        let p1 = fg(Color::DarkGrey);
        let p2 = "┌"@;
        let p3 = char_repeat('─', bwv);
        let p4 = "┐"@;
        let p5 = nl();
        let p6 = match lang_v {
            Option::Some(l) => fg(Color::Cyan) + "│ "@ + l + nl() + fg(Color::DarkGrey) + "├"@
                + char_repeat('─', bwv) + "┤"@ + nl(),
            Option::None => Seq::<char>::empty(),
        };
        let p7 = esc(39);
        let p8 = code_lines_s(highlighted_lines(lang_v, dark, content@), 0);
        let p9 = fg(Color::DarkGrey);
        let p10 = "└"@;
        let p11 = char_repeat('─', bwv);
        let p12 = "┘"@;
        let p13 = nl();
        let p14 = esc(39);
        let p15 = nl();
        assert(out@ == (((((((((((((((old(out)@ + p1) + p2) + p3) + p4) + p5) + p6) + p7) + p8) + p9) + p10) + p11) + p12) + p13) + p14) + p15));
        let g1 = p1;
        vstd::seq_lib::lemma_concat_associative(old(out)@, g1, p2);
        let g2 = g1 + p2;
        vstd::seq_lib::lemma_concat_associative(old(out)@, g2, p3);
        let g3 = g2 + p3;
        vstd::seq_lib::lemma_concat_associative(old(out)@, g3, p4);
        let g4 = g3 + p4;
        vstd::seq_lib::lemma_concat_associative(old(out)@, g4, p5);
        let g5 = g4 + p5;
        vstd::seq_lib::lemma_concat_associative(old(out)@, g5, p6);
        let g6 = g5 + p6;
        vstd::seq_lib::lemma_concat_associative(old(out)@, g6, p7);
        let g7 = g6 + p7;
        vstd::seq_lib::lemma_concat_associative(old(out)@, g7, p8);
        let g8 = g7 + p8;
        vstd::seq_lib::lemma_concat_associative(old(out)@, g8, p9);
        let g9 = g8 + p9;
        vstd::seq_lib::lemma_concat_associative(old(out)@, g9, p10);
        let g10 = g9 + p10;
        vstd::seq_lib::lemma_concat_associative(old(out)@, g10, p11);
        let g11 = g10 + p11;
        vstd::seq_lib::lemma_concat_associative(old(out)@, g11, p12);
        let g12 = g11 + p12;
        vstd::seq_lib::lemma_concat_associative(old(out)@, g12, p13);
        let g13 = g12 + p13;
        vstd::seq_lib::lemma_concat_associative(old(out)@, g13, p14);
        let g14 = g13 + p14;
        vstd::seq_lib::lemma_concat_associative(old(out)@, g14, p15);
        let g15 = g14 + p15;
        assert(out@ == old(out)@ + g15);
        assert(g15 == code_block_s(lang_v, content@, width as int, dark));
        assert(out@ == old(out)@ + code_block_s(lang_v, content@, width as int, dark));
    }
}

/// Appends a horizontal rule.
fn render_horizontal_rule(out: &mut Vec<char>, width: usize)
    ensures
        final(out)@ == old(out)@ + horizontal_rule_s(width as int),
{
    push_fg(out, Color::DarkGrey);
    out.push('\n');
    push_repeat(out, '━', width);
    out.push('\n');
    out.push('\n');
    push_esc(39, out);
    proof {
        assert(out@ =~= old(out)@ + horizontal_rule_s(width as int));
    }
}

/// Appends an image line.
fn render_image(out: &mut Vec<char>, url: &String, alt: &String)
    ensures
        final(out)@ == old(out)@ + image_s(url@, alt@),
{
    push_fg(out, Color::Magenta);
    push_str_chars(out, "🖼  ");
    push_fg(out, Color::Blue);
    push_esc(4, out);
    if alt.as_str().is_empty() {
        push_str_chars(out, "Image");
    } else {
        push_str_chars(out, alt.as_str());
    }
    push_esc(39, out);
    push_esc(0, out);
    push_fg(out, Color::DarkGrey);
    push_str_chars(out, " (");
    push_str_chars(out, url.as_str());
    push_str_chars(out, ")");
    out.push('\n');
    push_esc(39, out);
    out.push('\n');
    proof {
        assert(out@ =~= old(out)@ + image_s(url@, alt@));
    }
}

/// Appends a code span: the code color overlays the surrounding style and
/// is restored afterwards.
fn render_code_span(out: &mut Vec<char>, c: &String, style: &StyleState)
    ensures
        final(out)@ == old(out)@ + diff_seq(code_span_style(*style), *style) + "`"@ + c@ + "`"@
            + diff_seq(*style, code_span_style(*style)),
{
    let cs = StyleState { color: Option::Some(Color::Yellow), ..*style };
    cs.apply_diff(style, out);
    push_str_chars(out, "`");
    push_str_chars(out, c.as_str());
    push_str_chars(out, "`");
    style.apply_diff(&cs, out);
}

/// Appends a composite inline run: diff into the child style, render the
/// children, diff back to the parent style.
fn render_wrapped(
    out: &mut Vec<char>,
    children: &Vec<crate::ast::InlineElement>,
    style: &StyleState,
    cs: &StyleState,
)
    ensures
        final(out)@ == old(out)@ + diff_seq(*cs, *style) + inlines_s(
            crate::ast::inlines_view(children@),
            0,
            *cs,
        ) + diff_seq(*style, *cs),
    decreases children@, 1int,
{
    cs.apply_diff(style, out);
    render_inlines(out, children, cs);
    style.apply_diff(cs, out);
}

/// Appends a link: underlined colored content, then the URL as a dimmed
/// suffix under a transient style, then back to the parent style.
fn render_link(
    out: &mut Vec<char>,
    url: &String,
    content: &Vec<crate::ast::InlineElement>,
    style: &StyleState,
)
    ensures
        final(out)@ == old(out)@ + ({
            let cs = StyleState { underline: true, color: Option::Some(Color::Blue), ..*style };
            let us = StyleState { color: Option::Some(Color::DarkGrey), ..plain_style() };
            diff_seq(cs, *style) + inlines_s(crate::ast::inlines_view(content@), 0, cs) + diff_seq(
                us,
                cs,
            ) + " ("@ + url@ + ")"@ + diff_seq(*style, us)
        }),
    decreases content@, 1int,
{
    let cs = StyleState { underline: true, color: Option::Some(Color::Blue), ..*style };
    let us = StyleState { color: Option::Some(Color::DarkGrey), ..StyleState::default() };
    cs.apply_diff(style, out);
    render_inlines(out, content, &cs);
    us.apply_diff(&cs, out);
    push_str_chars(out, " (");
    push_str_chars(out, url.as_str());
    push_str_chars(out, ")");
    style.apply_diff(&us, out);
}

/// Appends a footnote reference marker in the footnote color.
fn render_footnote_ref(out: &mut Vec<char>, label: &String, style: &StyleState)
    ensures
        final(out)@ == old(out)@ + ({
            let fs = StyleState { color: Option::Some(Color::Cyan), ..*style };
            diff_seq(fs, *style) + "[^"@ + label@ + "]"@ + diff_seq(*style, fs)
        }),
{
    let fs = StyleState { color: Option::Some(Color::Cyan), ..*style };
    fs.apply_diff(style, out);
    push_str_chars(out, "[^");
    push_str_chars(out, label.as_str());
    push_str_chars(out, "]");
    style.apply_diff(&fs, out);
}

/// Appends one inline element under the active style.
fn render_inline(out: &mut Vec<char>, e: &crate::ast::InlineElement, style: &StyleState)
    ensures
        final(out)@ == old(out)@ + inline_s(crate::ast::inline_view(*e), *style),
    decreases *e, 2int,
{
    match e {
        crate::ast::InlineElement::Text(t) => {
            push_str_chars(out, t.as_str());
        },
        crate::ast::InlineElement::Code(c) => {
            render_code_span(out, c, style);
        },
        crate::ast::InlineElement::Strong(children) => {
            let cs = StyleState { bold: true, ..*style };
            render_wrapped(out, children, style, &cs);
        },
        crate::ast::InlineElement::Emphasis(children) => {
            let cs = StyleState { italic: true, ..*style };
            render_wrapped(out, children, style, &cs);
        },
        crate::ast::InlineElement::Strikethrough(children) => {
            let cs = StyleState { strikethrough: true, ..*style };
            render_wrapped(out, children, style, &cs);
        },
        crate::ast::InlineElement::Link { url, content, .. } => {
            render_link(out, url, content, style);
        },
        crate::ast::InlineElement::FootnoteReference(label) => {
            render_footnote_ref(out, label, style);
        },
        crate::ast::InlineElement::TaskListMarker(checked) => {
            if *checked {
                push_str_chars(out, "[x] ");
            } else {
                push_str_chars(out, "[ ] ");
            }
        },
        crate::ast::InlineElement::InlineHtml(s) => {
            push_str_chars(out, s.as_str());
        },
        crate::ast::InlineElement::Image { url, alt, .. } => {
            push_str_chars(out, alt.as_str());
            push_str_chars(out, " (");
            push_str_chars(out, url.as_str());
            push_str_chars(out, ")");
            proof {
                assert(out@ =~= old(out)@ + inline_s(crate::ast::inline_view(*e), *style));
            }
        },
        crate::ast::InlineElement::SoftBreak => {
            out.push('\n');
        },
        crate::ast::InlineElement::HardBreak => {
            out.push('\n');
        },
    }
}

/// Appends an inline run under one active style.
fn render_inlines(out: &mut Vec<char>, content: &Vec<crate::ast::InlineElement>, style: &StyleState)
    ensures
        final(out)@ == old(out)@ + inlines_s(crate::ast::inlines_view(content@), 0, *style),
    decreases content@, 0int,
{
    let ghost cv = crate::ast::inlines_view(content@);
    let mut i: usize = 0;
    while i < content.len()
        invariant
            i <= content.len(),
            cv == crate::ast::inlines_view(content@),
            old(out)@ + inlines_s(cv, 0, *style) == out@ + inlines_s(cv, i as int, *style),
        decreases content.len() - i,
    {
        let ghost opre = out@;
        render_inline(out, &content[i], style);
        proof {
            let piece = inline_s(cv[i as int], *style);
            assert(inlines_s(cv, i as int, *style) == piece + inlines_s(cv, i as int + 1, *style));
            vstd::seq_lib::lemma_concat_associative(
                opre,
                piece,
                inlines_s(cv, i as int + 1, *style),
            );
        }
        i += 1;
    }
}

/// Appends a quote marker.
fn push_bq_marker(out: &mut Vec<char>)
    ensures
        final(out)@ == old(out)@ + bq_marker_s(),
{
    push_fg(out, Color::DarkGrey);
    push_str_chars(out, "  ▌ ");
    push_esc(39, out);
    proof {
        assert(out@ =~= old(out)@ + bq_marker_s());
    }
}

/// Appends a quoted paragraph's inline run: the quote style is re-applied
/// fresh after every line break.
fn render_bq_inlines(out: &mut Vec<char>, content: &Vec<crate::ast::InlineElement>)
    ensures
        final(out)@ == old(out)@ + bq_inlines_s(crate::ast::inlines_view(content@), 0),
    decreases content@,
{
    let bqs = StyleState {
        bold: false,
        italic: true,
        strikethrough: false,
        underline: false,
        color: Option::Some(Color::White),
    };
    let ghost cv = crate::ast::inlines_view(content@);
    let mut i: usize = 0;
    while i < content.len()
        invariant
            i <= content.len(),
            cv == crate::ast::inlines_view(content@),
            bqs == bq_style(),
            old(out)@ + bq_inlines_s(cv, 0) == out@ + bq_inlines_s(cv, i as int),
        decreases content.len() - i,
    {
        let ghost opre = out@;
        let is_break = match &content[i] {
            crate::ast::InlineElement::SoftBreak => true,
            crate::ast::InlineElement::HardBreak => true,
            _ => false,
        };
        if is_break {
            out.push('\n');
            push_esc(0, out);
            push_esc(39, out);
            push_bq_marker(out);
            bqs.apply_fresh(out);
        } else {
            render_inline(out, &content[i], &bqs);
        }
        proof {
            let piece = match cv[i as int] {
                InlineV::SoftBreak => nl() + esc(0) + esc(39) + bq_marker_s() + fresh_seq(
                    bq_style(),
                ),
                InlineV::HardBreak => nl() + esc(0) + esc(39) + bq_marker_s() + fresh_seq(
                    bq_style(),
                ),
                _ => inline_s(cv[i as int], bq_style()),
            };
            assert(out@ =~= opre + piece);
            assert(bq_inlines_s(cv, i as int) == piece + bq_inlines_s(cv, i as int + 1));
            vstd::seq_lib::lemma_concat_associative(opre, piece, bq_inlines_s(cv, i as int + 1));
        }
        i += 1;
    }
}

/// Appends a blockquote's elements.
fn render_blockquote(out: &mut Vec<char>, content: &Vec<Element>, width: usize, dark: bool)
    ensures
        final(out)@ == old(out)@ + bq_elems_s(
            crate::ast::elems_view(content@),
            0,
            width as int,
            dark,
        ),
    decreases content@,
{
    let bqs = StyleState {
        bold: false,
        italic: true,
        strikethrough: false,
        underline: false,
        color: Option::Some(Color::White),
    };
    let ghost cv = crate::ast::elems_view(content@);
    let mut i: usize = 0;
    while i < content.len()
        invariant
            i <= content.len(),
            cv == crate::ast::elems_view(content@),
            bqs == bq_style(),
            old(out)@ + bq_elems_s(cv, 0, width as int, dark) == out@ + bq_elems_s(
                cv,
                i as int,
                width as int,
                dark,
            ),
        decreases content.len() - i,
    {
        let ghost opre = out@;
        match &content[i] {
            Element::Paragraph { content: inner } => {
                push_bq_marker(out);
                bqs.apply_fresh(out);
                render_bq_inlines(out, inner);
                out.push('\n');
                push_esc(0, out);
                push_esc(39, out);
            },
            other => {
                push_bq_marker(out);
                render_element(out, other, 4, width, dark);
            },
        }
        proof {
            let piece = match cv[i as int] {
                ElementV::Paragraph { content: innerv } => bq_marker_s() + fresh_seq(bq_style())
                    + bq_inlines_s(innerv, 0) + nl() + esc(0) + esc(39),
                _ => bq_marker_s() + element_s(cv[i as int], 4, width as int, dark),
            };
            assert(out@ =~= opre + piece);
            assert(bq_elems_s(cv, i as int, width as int, dark) == piece + bq_elems_s(
                cv,
                i as int + 1,
                width as int,
                dark,
            ));
            vstd::seq_lib::lemma_concat_associative(
                opre,
                piece,
                bq_elems_s(cv, i as int + 1, width as int, dark),
            );
        }
        i += 1;
    }
    out.push('\n');
    proof {
        assert(bq_elems_s(cv, content@.len() as int, width as int, dark) == nl());
        assert(out@ =~= old(out)@ + bq_elems_s(cv, 0, width as int, dark));
    }
}

/// Appends one list item's blocks, with the bullet before the first one.
fn render_item_elems(
    out: &mut Vec<char>,
    content: &Vec<Element>,
    indent: usize,
    bullet: &Vec<char>,
    width: usize,
    dark: bool,
)
    ensures
        final(out)@ == old(out)@ + item_elems_s(
            crate::ast::elems_view(content@),
            0,
            true,
            indent as int,
            bullet@,
            width as int,
            dark,
        ),
    decreases content@,
{
    let ghost cv = crate::ast::elems_view(content@);
    let mut first = true;
    let mut j: usize = 0;
    while j < content.len()
        invariant
            j <= content.len(),
            cv == crate::ast::elems_view(content@),
            old(out)@ + item_elems_s(cv, 0, true, indent as int, bullet@, width as int, dark)
                == out@ + item_elems_s(
                cv,
                j as int,
                first,
                indent as int,
                bullet@,
                width as int,
                dark,
            ),
        decreases content.len() - j,
    {
        let ghost opre = out@;
        let ghost first0 = first;
        if first {
            push_fg(out, Color::Cyan);
            push_repeat(out, ' ', indent);
            let mut b = bullet.clone();
            out.append(&mut b);
            push_esc(39, out);
            first = false;
        }
        let ghost bpre = out@;
        match &content[j] {
            Element::Paragraph { content: inner } => {
                let plain = StyleState::default();
                render_inlines(out, inner, &plain);
                out.push('\n');
            },
            Element::List { ordered, start, items } => {
                let number: u64 = match start {
                    Option::Some(n) => *n,
                    Option::None => 1,
                };
                render_list(out, items, *ordered, number, sat_add_usize(indent, 2), width, dark);
            },
            other => {
                out.push('\n');
                render_element(out, other, sat_add_usize(indent, 2), width, dark);
            },
        }
        proof {
            let bpiece = if first0 {
                fg(Color::Cyan) + spaces(indent as int) + bullet@ + esc(39)
            } else {
                Seq::<char>::empty()
            };
            let epiece = match cv[j as int] {
                ElementV::Paragraph { content: innerv } => inlines_s(innerv, 0, plain_style())
                    + nl(),
                ElementV::List { ordered, start, items } => lists_s(
                    items,
                    0,
                    ordered,
                    match start {
                        Option::Some(n) => n as int,
                        Option::None => 1,
                    },
                    sat_add(indent as int, 2),
                    width as int,
                    dark,
                ),
                _ => nl() + element_s(cv[j as int], sat_add(indent as int, 2), width as int, dark),
            };
            assert(bpre =~= opre + bpiece);
            assert(out@ =~= opre + (bpiece + epiece));
            assert(item_elems_s(cv, j as int, first0, indent as int, bullet@, width as int, dark)
                == (bpiece + epiece) + item_elems_s(
                cv,
                j as int + 1,
                false,
                indent as int,
                bullet@,
                width as int,
                dark,
            ));
            vstd::seq_lib::lemma_concat_associative(
                opre,
                bpiece + epiece,
                item_elems_s(cv, j as int + 1, false, indent as int, bullet@, width as int, dark),
            );
        }
        j += 1;
    }
    if first {
        push_fg(out, Color::Cyan);
        push_repeat(out, ' ', indent);
        let mut b = bullet.clone();
        out.append(&mut b);
        push_esc(39, out);
        out.push('\n');
    }
    proof {
        assert(out@ =~= old(out)@ + item_elems_s(
            cv,
            0,
            true,
            indent as int,
            bullet@,
            width as int,
            dark,
        ));
    }
}

/// Appends a list: a bullet per item — a running number for ordered lists, a
/// depth-cycled glyph otherwise.
fn render_list(
    out: &mut Vec<char>,
    items: &Vec<crate::ast::ListItem>,
    ordered: bool,
    number: u64,
    indent: usize,
    width: usize,
    dark: bool,
)
    ensures
        final(out)@ == old(out)@ + lists_s(
            crate::ast::items_view(items@),
            0,
            ordered,
            number as int,
            indent as int,
            width as int,
            dark,
        ),
    decreases items@,
{
    let ghost iv = crate::ast::items_view(items@);
    let mut i: usize = 0;
    let mut number = number;
    let ghost n0 = number as int;
    let ghost numbers = Seq::new(
        items@.len() + 1,
        |k: int|
            if k <= 0 {
                n0
            } else {
                0
            },
    );
    while i < items.len()
        invariant
            i <= items.len(),
            iv == crate::ast::items_view(items@),
            old(out)@ + lists_s(iv, 0, ordered, n0, indent as int, width as int, dark) == out@
                + lists_s(iv, i as int, ordered, number as int, indent as int, width as int, dark),
        decreases items.len() - i,
    {
        let ghost opre = out@;
        let ghost numpre = number as int;
        let mut bullet: Vec<char> = Vec::new();
        if ordered {
            crate::textutil::push_dec(number, &mut bullet);
            push_str_chars(&mut bullet, ". ");
        } else {
            let d = indent / 2;
            if d == 0 {
                push_str_chars(&mut bullet, "• ");
            } else if d == 1 {
                push_str_chars(&mut bullet, "◦ ");
            } else {
                push_str_chars(&mut bullet, "▪ ");
            }
        }
        proof {
            assert(bullet@ =~= bullet_s(ordered, numpre, indent as int));
        }
        render_item_elems(out, &items[i].content, indent, &bullet, width, dark);
        if number < u64::MAX {
            number = number + 1;
        }
        proof {
            assert(iv[i as int].content == crate::ast::elems_view(items@[i as int].content@));
            let piece = item_elems_s(
                iv[i as int].content,
                0,
                true,
                indent as int,
                bullet_s(ordered, numpre, indent as int),
                width as int,
                dark,
            );
            assert(out@ == opre + piece);
            assert(lists_s(iv, i as int, ordered, numpre, indent as int, width as int, dark)
                == piece + lists_s(
                iv,
                i as int + 1,
                ordered,
                sat_inc64(numpre),
                indent as int,
                width as int,
                dark,
            ));
            assert(number as int == sat_inc64(numpre));
            vstd::seq_lib::lemma_concat_associative(
                opre,
                piece,
                lists_s(
                    iv,
                    i as int + 1,
                    ordered,
                    sat_inc64(numpre),
                    indent as int,
                    width as int,
                    dark,
                ),
            );
        }
        i += 1;
    }
    if indent == 0 {
        out.push('\n');
    }
    proof {
        assert(out@ =~= old(out)@ + lists_s(
            iv,
            0,
            ordered,
            n0,
            indent as int,
            width as int,
            dark,
        ));
    }
}

/// The paragraph's inline content when the element is a paragraph.
fn as_paragraph(e: &Element) -> (r: Option<&Vec<crate::ast::InlineElement>>)
    ensures
        match r {
            Option::Some(inner) => crate::ast::elem_view(*e) == (ElementV::Paragraph {
                content: crate::ast::inlines_view(inner@),
            }),
            Option::None => !(crate::ast::elem_view(*e) matches ElementV::Paragraph { .. }),
        },
{
    match e {
        Element::Paragraph { content } => Option::Some(content),
        Element::Heading { .. } => Option::None,
        Element::CodeBlock { .. } => Option::None,
        Element::List { .. } => Option::None,
        Element::Table { .. } => Option::None,
        Element::BlockQuote { .. } => Option::None,
        Element::HorizontalRule => Option::None,
        Element::Image { .. } => Option::None,
        Element::FootnoteDefinition { .. } => Option::None,
        Element::Html(_) => Option::None,
    }
}

/// Appends one block element, dispatching on its kind.
#[verifier::rlimit(50)]
fn render_element(out: &mut Vec<char>, e: &Element, indent: usize, width: usize, dark: bool)
    ensures
        final(out)@ == old(out)@ + element_s(crate::ast::elem_view(*e), indent as int, width as int, dark),
    decreases *e,
{
    match e {
        Element::Heading { level, content } => {
            render_heading(out, *level, content, width);
        
            proof {
                assert(out@ =~= old(out)@ + element_s(crate::ast::elem_view(*e), indent as int, width as int, dark));
            }
        },
        Element::Paragraph { content } => {
            push_repeat(out, ' ', indent);
            let plain = StyleState::default();
            render_inlines(out, content, &plain);
            out.push('\n');
            out.push('\n');
        
            proof {
                assert(out@ =~= old(out)@ + element_s(crate::ast::elem_view(*e), indent as int, width as int, dark));
            }
        },
        Element::CodeBlock { language, content } => {
            render_code_block(out, language, content, width, dark);
        
            proof {
                assert(out@ =~= old(out)@ + element_s(crate::ast::elem_view(*e), indent as int, width as int, dark));
            }
        },
        Element::List { ordered, start, items } => {
            let number: u64 = match start {
                Option::Some(n) => *n,
                Option::None => 1,
            };
            render_list(out, items, *ordered, number, indent, width, dark);
        
            proof {
                assert(out@ =~= old(out)@ + element_s(crate::ast::elem_view(*e), indent as int, width as int, dark));
            }
        },
        Element::Table { headers, alignments, rows } => {
            render_table(out, headers, alignments, rows);
        
            proof {
                assert(out@ =~= old(out)@ + element_s(crate::ast::elem_view(*e), indent as int, width as int, dark));
            }
        },
        Element::BlockQuote { content } => {
            render_blockquote(out, content, width, dark);
        
            proof {
                assert(out@ =~= old(out)@ + element_s(crate::ast::elem_view(*e), indent as int, width as int, dark));
            }
        },
        Element::HorizontalRule => {
            render_horizontal_rule(out, width);
        
            proof {
                assert(out@ =~= old(out)@ + element_s(crate::ast::elem_view(*e), indent as int, width as int, dark));
            }
        },
        Element::Image { url, alt, .. } => {
            render_image(out, url, alt);
        
            proof {
                assert(out@ =~= old(out)@ + element_s(crate::ast::elem_view(*e), indent as int, width as int, dark));
            }
        },
        Element::FootnoteDefinition { label, content } => {
            push_fg(out, Color::Cyan);
            push_str_chars(out, "[^");
            push_str_chars(out, label.as_str());
            push_str_chars(out, "]: ");
            push_esc(39, out);
            let inline_one = if content.len() == 1 {
                as_paragraph(&content[0])
            } else {
                Option::None
            };
            match inline_one {
                Option::Some(inner) => {
                    let plain = StyleState::default();
                    render_inlines(out, inner, &plain);
                    out.push('\n');
                    out.push('\n');
                    proof {
                        assert(out@ =~= old(out)@ + element_s(
                            crate::ast::elem_view(*e),
                            indent as int,
                            width as int,
                            dark,
                        ));
                    }
                },
                Option::None => {
                    out.push('\n');
                    render_elems_at(out, content, 4, width, dark);
                    proof {
                        assert(out@ =~= old(out)@ + element_s(
                            crate::ast::elem_view(*e),
                            indent as int,
                            width as int,
                            dark,
                        ));
                    }
                },
            }
        },
        Element::Html(_) => {
            proof {
                assert(out@ =~= old(out)@ + element_s(
                    crate::ast::elem_view(*e),
                    indent as int,
                    width as int,
                    dark,
                ));
            }
        },
    }
}

/// Appends a run of block elements at one indent.
fn render_elems_at(out: &mut Vec<char>, content: &Vec<Element>, indent: usize, width: usize, dark: bool)
    ensures
        final(out)@ == old(out)@ + elems_at_s(
            crate::ast::elems_view(content@),
            0,
            indent as int,
            width as int,
            dark,
        ),
    decreases content@,
{
    let ghost cv = crate::ast::elems_view(content@);
    let mut i: usize = 0;
    while i < content.len()
        invariant
            i <= content.len(),
            cv == crate::ast::elems_view(content@),
            old(out)@ + elems_at_s(cv, 0, indent as int, width as int, dark) == out@ + elems_at_s(
                cv,
                i as int,
                indent as int,
                width as int,
                dark,
            ),
        decreases content.len() - i,
    {
        let ghost opre = out@;
        render_element(out, &content[i], indent, width, dark);
        proof {
            let piece = element_s(cv[i as int], indent as int, width as int, dark);
            assert(elems_at_s(cv, i as int, indent as int, width as int, dark) == piece
                + elems_at_s(cv, i as int + 1, indent as int, width as int, dark));
            vstd::seq_lib::lemma_concat_associative(
                opre,
                piece,
                elems_at_s(cv, i as int + 1, indent as int, width as int, dark),
            );
        }
        i += 1;
    }
}

/// Appends the table of contents.
#[verifier::rlimit(50)]
fn render_toc(out: &mut Vec<char>, toc: &Vec<TocEntry>, width: usize)
    ensures
        final(out)@ == old(out)@ + toc_s(entries_view(toc@), width as int),
{
    let ghost tv = entries_view(toc@);
    out.push('\n');
    push_fg(out, Color::Cyan);
    push_esc(1, out);
    push_str_chars(out, "📑 Table of Contents");
    out.push('\n');
    push_esc(39, out);
    push_esc(0, out);
    push_fg(out, Color::DarkGrey);
    push_repeat(out, '─', min_usize(width, 30));
    out.push('\n');
    push_esc(39, out);
    let mut min_level: u8 = 255;
    let mut k: usize = 0;
    while k < toc.len()
        invariant
            k <= toc.len(),
            tv == entries_view(toc@),
            min_int(min_level as int, toc_min_level(tv, k as int)) == toc_min_level(tv, 0),
        decreases toc.len() - k,
    {
        if toc[k].level < min_level {
            min_level = toc[k].level;
        }
        k += 1;
    }
    let min_level = if toc.len() > 0 {
        min_level
    } else {
        1
    };
    proof {
        if toc@.len() > 0 {
            assert(toc_min_level(tv, tv.len() as int) == 255);
            assert(min_level as int == (if tv.len() > 0 {
                toc_min_level(tv, 0)
            } else {
                1int
            }));
        }
    }
    let ghost entries0 = out@;
    let mut i: usize = 0;
    while i < toc.len()
        invariant
            i <= toc.len(),
            tv == entries_view(toc@),
            min_level as int == (if tv.len() > 0 {
                toc_min_level(tv, 0)
            } else {
                1int
            }),
            entries0 + toc_entries_s(tv, 0, min_level as int) == out@ + toc_entries_s(
                tv,
                i as int,
                min_level as int,
            ),
        decreases toc.len() - i,
    {
        let ghost opre = out@;
        let e = &toc[i];
        push_fg(out, Color::Cyan);
        let rel = crate::textutil::sat_sub_usize(e.level as usize, min_level as usize);
        push_repeat(out, ' ', 2 * rel);
        if e.level == 1 {
            push_str_chars(out, "●");
        } else if e.level == 2 {
            push_str_chars(out, "○");
        } else if e.level == 3 {
            push_str_chars(out, "◆");
        } else {
            push_str_chars(out, "◇");
        }
        push_str_chars(out, " ");
        push_esc(39, out);
        push_str_chars(out, e.text.as_str());
        out.push('\n');
        proof {
            let piece = fg(Color::Cyan) + char_repeat(
                ' ',
                2 * sat_sub(tv[i as int].level as int, min_level as int),
            ) + toc_bullet(tv[i as int].level) + " "@ + esc(39) + tv[i as int].text + nl();
            assert(2 * rel as int == 2 * sat_sub(tv[i as int].level as int, min_level as int));
            assert(out@ =~= opre + piece);
            assert(toc_entries_s(tv, i as int, min_level as int) == piece + toc_entries_s(
                tv,
                i as int + 1,
                min_level as int,
            ));
            vstd::seq_lib::lemma_concat_associative(
                opre,
                piece,
                toc_entries_s(tv, i as int + 1, min_level as int),
            );
        }
        i += 1;
    }
    proof {
        assert(toc_entries_s(tv, tv.len() as int, min_level as int) == Seq::<char>::empty());
        assert(out@ =~= entries0 + toc_entries_s(tv, 0, min_level as int));
    }
    out.push('\n');
    push_fg(out, Color::DarkGrey);
    push_repeat(out, '━', min_usize(width, 50));
    out.push('\n');
    push_esc(39, out);
    out.push('\n');
    proof {
        let mlv = if tv.len() > 0 { toc_min_level(tv, 0) } else { 1int };
        let p1 = nl();
        let p2 = fg(Color::Cyan);
        let p3 = esc(1);
        let p4 = "📑 Table of Contents"@;
        let p5 = nl();
        let p6 = esc(39);
        let p7 = esc(0);
        let p8 = fg(Color::DarkGrey);
        let p9 = char_repeat('─', min_int(width as int, 30));
        let p10 = nl();
        let p11 = esc(39);
        let p12 = toc_entries_s(tv, 0, mlv);
        let p13 = nl();
        let p14 = fg(Color::DarkGrey);
        let p15 = char_repeat('━', min_int(width as int, 50));
        let p16 = nl();
        let p17 = esc(39);
        let p18 = nl();
        assert(out@ == ((((((((((((((((((old(out)@ + p1) + p2) + p3) + p4) + p5) + p6) + p7) + p8) + p9) + p10) + p11) + p12) + p13) + p14) + p15) + p16) + p17) + p18));
        let g1 = p1;
        vstd::seq_lib::lemma_concat_associative(old(out)@, g1, p2);
        let g2 = g1 + p2;
        vstd::seq_lib::lemma_concat_associative(old(out)@, g2, p3);
        let g3 = g2 + p3;
        vstd::seq_lib::lemma_concat_associative(old(out)@, g3, p4);
        let g4 = g3 + p4;
        vstd::seq_lib::lemma_concat_associative(old(out)@, g4, p5);
        let g5 = g4 + p5;
        vstd::seq_lib::lemma_concat_associative(old(out)@, g5, p6);
        let g6 = g5 + p6;
        vstd::seq_lib::lemma_concat_associative(old(out)@, g6, p7);
        let g7 = g6 + p7;
        vstd::seq_lib::lemma_concat_associative(old(out)@, g7, p8);
        let g8 = g7 + p8;
        vstd::seq_lib::lemma_concat_associative(old(out)@, g8, p9);
        let g9 = g8 + p9;
        vstd::seq_lib::lemma_concat_associative(old(out)@, g9, p10);
        let g10 = g9 + p10;
        vstd::seq_lib::lemma_concat_associative(old(out)@, g10, p11);
        let g11 = g10 + p11;
        vstd::seq_lib::lemma_concat_associative(old(out)@, g11, p12);
        let g12 = g11 + p12;
        vstd::seq_lib::lemma_concat_associative(old(out)@, g12, p13);
        let g13 = g12 + p13;
        vstd::seq_lib::lemma_concat_associative(old(out)@, g13, p14);
        let g14 = g13 + p14;
        vstd::seq_lib::lemma_concat_associative(old(out)@, g14, p15);
        let g15 = g14 + p15;
        vstd::seq_lib::lemma_concat_associative(old(out)@, g15, p16);
        let g16 = g15 + p16;
        vstd::seq_lib::lemma_concat_associative(old(out)@, g16, p17);
        let g17 = g16 + p17;
        vstd::seq_lib::lemma_concat_associative(old(out)@, g17, p18);
        let g18 = g17 + p18;
        assert(out@ == old(out)@ + g18);
        assert(g18 == toc_s(tv, width as int));
        assert(out@ == old(out)@ + toc_s(tv, width as int));
    }
}

fn elem_is_footnote(e: &Element) -> (r: bool)
    ensures
        r == is_footnote_def(crate::ast::elem_view(*e)),
{
    match e {
        Element::FootnoteDefinition { .. } => true,
        _ => false,
    }
}

/// The terminal renderer: a theme choice and the terminal width, queried
/// once at construction by the caller.
pub struct TerminalRenderer {
    theme: String,
    term_width: usize,
}

impl TerminalRenderer {
    /// Whether the dark theme drives the highlighter.
    pub closed spec fn dark(&self) -> bool {
        self.theme@ != "light"@
    }

    /// The terminal width the renderer lays out for.
    pub closed spec fn width(&self) -> int {
        self.term_width as int
    }

    /// A renderer for the given theme and terminal width.
    pub fn new(theme: &str, term_width: usize) -> (r: TerminalRenderer)
        ensures
            r.dark() == (theme@ != "light"@),
            r.width() == term_width as int,
    {
        TerminalRenderer { theme: theme.to_owned(), term_width }
    }

    /// Renders a document to the styled byte-for-byte terminal text: the
    /// table of contents when asked for, every non-footnote element in
    /// order, and the deferred footnote definitions after a rule.
    pub fn render(&self, document: &Document, show_toc: bool) -> (r: String)
        ensures
            r@ == render_to_s(document@, show_toc, self.width(), self.dark()),
    {
        let dark = !str_eq(self.theme.as_str(), "light");
        let width = self.term_width;
        let ghost ev = crate::ast::elems_view(document.elements@);
        let mut out: Vec<char> = Vec::new();
        if show_toc {
            let toc = generate_toc(document);
            if toc.len() > 0 {
                render_toc(&mut out, &toc, width);
            }
            proof {
                assert(entries_view(toc@).len() == toc@.len());
            }
        }
        proof {
            assert(out@ =~= Seq::<char>::empty() + (if show_toc && toc_of(document@).len() > 0 {
                toc_s(toc_of(document@), width as int)
            } else {
                Seq::<char>::empty()
            }));
        }
        let ghost main0 = out@;
        let mut i: usize = 0;
        while i < document.elements.len()
            invariant
                i <= document.elements.len(),
                ev == crate::ast::elems_view(document.elements@),
                main0 + main_elems_s(ev, 0, width as int, dark) == out@ + main_elems_s(
                    ev,
                    i as int,
                    width as int,
                    dark,
                ),
            decreases document.elements.len() - i,
        {
            let ghost opre = out@;
            if !elem_is_footnote(&document.elements[i]) {
                render_element(&mut out, &document.elements[i], 0, width, dark);
            }
            proof {
                let piece = match ev[i as int] {
                    ElementV::FootnoteDefinition { .. } => Seq::<char>::empty(),
                    _ => element_s(ev[i as int], 0, width as int, dark),
                };
                assert(out@ =~= opre + piece);
                assert(main_elems_s(ev, i as int, width as int, dark) == piece + main_elems_s(
                    ev,
                    i as int + 1,
                    width as int,
                    dark,
                ));
                vstd::seq_lib::lemma_concat_associative(
                    opre,
                    piece,
                    main_elems_s(ev, i as int + 1, width as int, dark),
                );
            }
            i += 1;
        }
        let mut any_footnote = false;
        let mut k: usize = 0;
        while k < document.elements.len()
            invariant
                k <= document.elements.len(),
                ev == crate::ast::elems_view(document.elements@),
                any_footnote ==> has_footnote(ev),
                !any_footnote ==> forall|j: int| 0 <= j < k as int ==> !is_footnote_def(ev[j]),
            decreases document.elements.len() - k,
        {
            let isf = elem_is_footnote(&document.elements[k]);
            proof {
                assert(is_footnote_def(ev[k as int]) == is_footnote_def(
                    crate::ast::elem_view(document.elements@[k as int]),
                ));
            }
            if isf {
                any_footnote = true;
                proof {
                    assert(is_footnote_def(ev[k as int]));
                }
            }
            k += 1;
        }
        proof {
            if !any_footnote {
                assert(!has_footnote(ev));
            }
        }
        if any_footnote {
            let ghost foot0 = out@;
            push_fg(&mut out, Color::DarkGrey);
            push_repeat(&mut out, '─', min_usize(width, 40));
            out.push('\n');
            push_esc(39, &mut out);
            let ghost defs0 = out@;
            let mut f: usize = 0;
            while f < document.elements.len()
                invariant
                    f <= document.elements.len(),
                    ev == crate::ast::elems_view(document.elements@),
                    defs0 + footnote_elems_s(ev, 0, width as int, dark) == out@ + footnote_elems_s(
                        ev,
                        f as int,
                        width as int,
                        dark,
                    ),
                decreases document.elements.len() - f,
            {
                let ghost opre = out@;
                if elem_is_footnote(&document.elements[f]) {
                    render_element(&mut out, &document.elements[f], 0, width, dark);
                }
                proof {
                    let piece = match ev[f as int] {
                        ElementV::FootnoteDefinition { .. } => element_s(
                            ev[f as int],
                            0,
                            width as int,
                            dark,
                        ),
                        _ => Seq::<char>::empty(),
                    };
                    assert(out@ =~= opre + piece);
                    assert(footnote_elems_s(ev, f as int, width as int, dark) == piece
                        + footnote_elems_s(ev, f as int + 1, width as int, dark));
                    vstd::seq_lib::lemma_concat_associative(
                        opre,
                        piece,
                        footnote_elems_s(ev, f as int + 1, width as int, dark),
                    );
                }
                f += 1;
            }
        }
        proof {
            assert(out@ =~= render_to_s(document@, show_toc, width as int, dark));
        }
        string_from_chars(&out)
    }
}

} // verus!
