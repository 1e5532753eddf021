//! The document-model builder: a recursive-descent consumer of the flat
//! event stream. It is total — malformed or unsupported input degrades to
//! dropped nodes, the index always advances, and parsing terminates at end
//! of stream.
//!
//! The `*_s` spec functions are the mathematical definition of the builder;
//! each executable function is proved to compute exactly what its spec
//! function says.

use vstd::prelude::*;

use crate::ast::{
    Document, DocumentV, Element, ElementV, InlineElement, InlineV, ListItem, ListItemV,
    inline_view, inlines_view, elem_view, elems_view, item_view, items_view, strings_view,
    rows_view, opt_string_view, lemma_inlines_view_empty, lemma_inlines_view_push,
    lemma_elems_view_empty, lemma_elems_view_push, lemma_items_view_empty, lemma_items_view_push,
    lemma_strings_view_empty, lemma_strings_view_push, lemma_rows_view_empty, lemma_rows_view_push,
};
use crate::events::{MdEvent, MdTag, MdTagEnd, md_events_of, tokenize};
use vstd::string::StringExecFns;

verus! {

/// End markers match by tag kind only, ignoring any payload. Only the kinds
/// that can terminate an inline scan take part.
pub open spec fn tag_end_matches_s(actual: MdTagEnd, expected: MdTagEnd) -> bool {
    match (actual, expected) {
        (MdTagEnd::Emphasis, MdTagEnd::Emphasis) => true,
        (MdTagEnd::Strong, MdTagEnd::Strong) => true,
        (MdTagEnd::Strikethrough, MdTagEnd::Strikethrough) => true,
        (MdTagEnd::Link, MdTagEnd::Link) => true,
        (MdTagEnd::Image, MdTagEnd::Image) => true,
        (MdTagEnd::Paragraph, MdTagEnd::Paragraph) => true,
        (MdTagEnd::Item, MdTagEnd::Item) => true,
        _ => false,
    }
}

/// A block-boundary end marker terminates a top-level inline scan (one with
/// no expected terminator).
pub open spec fn is_block_boundary_end_s(e: MdEvent) -> bool {
    match e {
        MdEvent::End(MdTagEnd::Paragraph) => true,
        MdEvent::End(MdTagEnd::Item) => true,
        MdEvent::End(MdTagEnd::BlockQuote) => true,
        MdEvent::End(MdTagEnd::FootnoteDefinition) => true,
        _ => false,
    }
}

/// Whether the inline scan stops at this event.
pub open spec fn inline_stops_s(e: MdEvent, term: Option<MdTagEnd>) -> bool {
    match term {
        Option::Some(t) => match e {
            MdEvent::End(te) => tag_end_matches_s(te, t),
            _ => false,
        },
        Option::None => is_block_boundary_end_s(e),
    }
}

/// The position just past `i`, capped at `len`.
pub open spec fn next_at(len: int, i: int) -> int {
    if i + 1 < len {
        i + 1
    } else {
        len
    }
}

/// The position just past an end marker found at `j` by a scan that began at
/// `i`: at least `i + 1`, at most `len`.
pub open spec fn past_end(len: int, i: int, j: int) -> int {
    let k = if j + 1 > i + 1 {
        j + 1
    } else {
        i + 1
    };
    if k > len {
        len
    } else {
        k
    }
}

/// The position a scan resumes at when a sub-parse that began at `i` returned
/// `j`: at least `i + 1`, at most `len`.
pub open spec fn onward(len: int, i: int, j: int) -> int {
    let k = if j > i + 1 {
        j
    } else {
        i + 1
    };
    if k > len {
        len
    } else {
        k
    }
}

/// Alt text of an image: the concatenation of all `Text` events before the
/// matching image end. Returns the text and the index of the end marker (or
/// the stream's length).
pub open spec fn image_alt_s(events: Seq<MdEvent>, i: int, acc: Seq<char>) -> (Seq<char>, int)
    decreases events.len() - i, 0int,
{
    if i < 0 || i >= events.len() {
        (acc, events.len() as int)
    } else {
        match events[i] {
            MdEvent::End(MdTagEnd::Image) => (acc, i),
            MdEvent::Text(s) => image_alt_s(events, i + 1, acc + s@),
            _ => image_alt_s(events, i + 1, acc),
        }
    }
}

/// Heading content: the concatenation of all `Text` and `Code` events before
/// the matching heading end.
pub open spec fn heading_scan_s(events: Seq<MdEvent>, i: int, acc: Seq<char>) -> (Seq<char>, int)
    decreases events.len() - i, 0int,
{
    if i < 0 || i >= events.len() {
        (acc, events.len() as int)
    } else {
        match events[i] {
            MdEvent::End(MdTagEnd::Heading(_)) => (acc, i),
            MdEvent::Text(s) => heading_scan_s(events, i + 1, acc + s@),
            MdEvent::Code(s) => heading_scan_s(events, i + 1, acc + s@),
            _ => heading_scan_s(events, i + 1, acc),
        }
    }
}

/// Code block content: the concatenation of all `Text` events before the
/// matching code block end.
pub open spec fn code_scan_s(events: Seq<MdEvent>, i: int, acc: Seq<char>) -> (Seq<char>, int)
    decreases events.len() - i, 0int,
{
    if i < 0 || i >= events.len() {
        (acc, events.len() as int)
    } else {
        match events[i] {
            MdEvent::End(MdTagEnd::CodeBlock) => (acc, i),
            MdEvent::Text(s) => code_scan_s(events, i + 1, acc + s@),
            _ => code_scan_s(events, i + 1, acc),
        }
    }
}

/// One step of the table scan's cell accumulation: `Text` appends literally;
/// inline `Code` is wrapped in backticks to preserve literal-code signaling.
pub open spec fn cell_text_s(cell: Seq<char>, e: MdEvent) -> Seq<char> {
    match e {
        MdEvent::Text(s) => cell + s@,
        MdEvent::Code(s) => cell + seq!['`'] + s@ + seq!['`'],
        _ => cell,
    }
}

/// Table scan: tracks a current-row and current-cell buffer; the head
/// section's end flushes the accumulated cells into the headers, each row's
/// end flushes into the rows. Returns headers, rows, and the index of the
/// table's end marker (or the stream's length).
pub open spec fn table_scan_s(
    events: Seq<MdEvent>,
    i: int,
    headers: Seq<Seq<char>>,
    rows: Seq<Seq<Seq<char>>>,
    row: Seq<Seq<char>>,
    cell: Seq<char>,
) -> (Seq<Seq<char>>, Seq<Seq<Seq<char>>>, int)
    decreases events.len() - i, 0int,
{
    if i < 0 || i >= events.len() {
        (headers, rows, events.len() as int)
    } else {
        match events[i] {
            MdEvent::End(MdTagEnd::Table) => (headers, rows, i),
            MdEvent::Start(MdTag::TableHead) => table_scan_s(
                events,
                i + 1,
                headers,
                rows,
                Seq::empty(),
                cell,
            ),
            MdEvent::End(MdTagEnd::TableHead) => table_scan_s(events, i + 1, row, rows, row, cell),
            MdEvent::Start(MdTag::TableRow) => table_scan_s(
                events,
                i + 1,
                headers,
                rows,
                Seq::empty(),
                cell,
            ),
            MdEvent::End(MdTagEnd::TableRow) => table_scan_s(
                events,
                i + 1,
                headers,
                rows.push(row),
                row,
                cell,
            ),
            MdEvent::Start(MdTag::TableCell) => table_scan_s(
                events,
                i + 1,
                headers,
                rows,
                row,
                Seq::empty(),
            ),
            MdEvent::End(MdTagEnd::TableCell) => table_scan_s(
                events,
                i + 1,
                headers,
                rows,
                row.push(cell),
                cell,
            ),
            _ => table_scan_s(events, i + 1, headers, rows, row, cell_text_s(cell, events[i])),
        }
    }
}

/// Inline elements parsed from `i` up to the expected terminator (when one is
/// given), a block-boundary end (when none is), or the end of the stream.
/// Returns the elements and the stop position.
pub open spec fn parse_inline_s(events: Seq<MdEvent>, i: int, term: Option<MdTagEnd>) -> (
    Seq<InlineV>,
    int,
)
    decreases events.len() - i, 1int,
{
    let len = events.len() as int;
    if i < 0 || i >= len {
        (Seq::empty(), len)
    } else if inline_stops_s(events[i], term) {
        (Seq::empty(), i)
    } else {
        match events[i] {
            MdEvent::Text(s) => {
                let (rest, j) = parse_inline_s(events, i + 1, term);
                (seq![InlineV::Text(s@)] + rest, j)
            },
            MdEvent::Code(s) => {
                let (rest, j) = parse_inline_s(events, i + 1, term);
                (seq![InlineV::Code(s@)] + rest, j)
            },
            MdEvent::FootnoteReference(s) => {
                let (rest, j) = parse_inline_s(events, i + 1, term);
                (seq![InlineV::FootnoteReference(s@)] + rest, j)
            },
            MdEvent::SoftBreak => {
                let (rest, j) = parse_inline_s(events, i + 1, term);
                (seq![InlineV::SoftBreak] + rest, j)
            },
            MdEvent::HardBreak => {
                let (rest, j) = parse_inline_s(events, i + 1, term);
                (seq![InlineV::HardBreak] + rest, j)
            },
            MdEvent::TaskListMarker(checked) => {
                let (rest, j) = parse_inline_s(events, i + 1, term);
                (seq![InlineV::TaskListMarker(checked)] + rest, j)
            },
            MdEvent::InlineHtml(s) => {
                let (rest, j) = parse_inline_s(events, i + 1, term);
                (seq![InlineV::InlineHtml(s@)] + rest, j)
            },
            MdEvent::Start(MdTag::Strong) => {
                let (content, j) = parse_inline_s(events, i + 1, Some(MdTagEnd::Strong));
                let (rest, k) = parse_inline_s(events, past_end(len, i, j), term);
                (seq![InlineV::Strong(content)] + rest, k)
            },
            MdEvent::Start(MdTag::Emphasis) => {
                let (content, j) = parse_inline_s(events, i + 1, Some(MdTagEnd::Emphasis));
                let (rest, k) = parse_inline_s(events, past_end(len, i, j), term);
                (seq![InlineV::Emphasis(content)] + rest, k)
            },
            MdEvent::Start(MdTag::Strikethrough) => {
                let (content, j) = parse_inline_s(events, i + 1, Some(MdTagEnd::Strikethrough));
                let (rest, k) = parse_inline_s(events, past_end(len, i, j), term);
                (seq![InlineV::Strikethrough(content)] + rest, k)
            },
            MdEvent::Start(MdTag::Link { url, title }) => {
                let (content, j) = parse_inline_s(events, i + 1, Some(MdTagEnd::Link));
                let (rest, k) = parse_inline_s(events, past_end(len, i, j), term);
                let t = if title@.len() == 0 {
                    Option::None
                } else {
                    Option::Some(title@)
                };
                (seq![InlineV::Link { url: url@, content, title: t }] + rest, k)
            },
            MdEvent::Start(MdTag::Image { url, title }) => {
                let (alt, j) = image_alt_s(events, i + 1, Seq::empty());
                let (rest, k) = parse_inline_s(events, past_end(len, i, j), term);
                let t = if title@.len() == 0 {
                    Option::None
                } else {
                    Option::Some(title@)
                };
                (seq![InlineV::Image { url: url@, alt, title: t }] + rest, k)
            },
            _ => parse_inline_s(events, i + 1, term),
        }
    }
}

/// One item's block content, parsed up to the item's end marker. Bare inline
/// runs directly inside the item are coalesced into a synthetic paragraph so
/// every item's content is block-level.
pub open spec fn item_scan_s(events: Seq<MdEvent>, i: int, acc: Seq<ElementV>) -> (
    Seq<ElementV>,
    int,
)
    decreases events.len() - i, 4int,
{
    let len = events.len() as int;
    if i < 0 || i >= len {
        (acc, len)
    } else {
        match events[i] {
            MdEvent::End(MdTagEnd::Item) => (acc, i),
            MdEvent::Start(MdTag::List { .. }) => item_block_step_s(events, i, acc),
            MdEvent::Start(MdTag::Paragraph) => item_block_step_s(events, i, acc),
            MdEvent::Start(MdTag::CodeBlock { .. }) => item_block_step_s(events, i, acc),
            MdEvent::Start(MdTag::BlockQuote) => item_block_step_s(events, i, acc),
            MdEvent::Start(MdTag::Table { .. }) => item_block_step_s(events, i, acc),
            MdEvent::Text(_) => item_inline_step_s(events, i, acc),
            MdEvent::Code(_) => item_inline_step_s(events, i, acc),
            MdEvent::TaskListMarker(_) => item_inline_step_s(events, i, acc),
            MdEvent::Start(MdTag::Strong) => item_inline_step_s(events, i, acc),
            MdEvent::Start(MdTag::Emphasis) => item_inline_step_s(events, i, acc),
            MdEvent::Start(MdTag::Strikethrough) => item_inline_step_s(events, i, acc),
            MdEvent::Start(MdTag::Link { .. }) => item_inline_step_s(events, i, acc),
            _ => item_scan_s(events, i + 1, acc),
        }
    }
}

/// A nested block inside a list item: parse it recursively and keep it in
/// the item's content.
pub open spec fn item_block_step_s(events: Seq<MdEvent>, i: int, acc: Seq<ElementV>) -> (
    Seq<ElementV>,
    int,
)
    decreases events.len() - i, 3int,
{
    let len = events.len() as int;
    if i < 0 || i >= len {
        (acc, len)
    } else {
        let (el, j) = parse_element_s(events, i);
        let acc2 = match el {
            Option::Some(e) => acc.push(e),
            Option::None => acc,
        };
        item_scan_s(events, onward(len, i, j), acc2)
    }
}

/// A bare inline run inside a list item: parse it as inline content and wrap
/// it in a synthetic paragraph (unless it is empty).
pub open spec fn item_inline_step_s(events: Seq<MdEvent>, i: int, acc: Seq<ElementV>) -> (
    Seq<ElementV>,
    int,
)
    decreases events.len() - i, 3int,
{
    let len = events.len() as int;
    if i < 0 || i >= len {
        (acc, len)
    } else {
        let (content, j) = parse_inline_s(events, i, Some(MdTagEnd::Item));
        let acc2 = if content.len() == 0 {
            acc
        } else {
            acc.push(ElementV::Paragraph { content })
        };
        item_scan_s(events, onward(len, i, j), acc2)
    }
}

/// List scan: each item's blocks are parsed recursively until the item's end;
/// the list closes at its own end marker.
pub open spec fn list_scan_s(events: Seq<MdEvent>, i: int, items: Seq<ListItemV>) -> (
    Seq<ListItemV>,
    int,
)
    decreases events.len() - i, 4int,
{
    let len = events.len() as int;
    if i < 0 || i >= len {
        (items, len)
    } else {
        match events[i] {
            MdEvent::End(MdTagEnd::List(_)) => (items, i),
            MdEvent::Start(MdTag::Item) => {
                let (content, j) = item_scan_s(events, i + 1, Seq::empty());
                list_scan_s(events, past_end(len, i, j), items.push(ListItemV { content }))
            },
            _ => list_scan_s(events, i + 1, items),
        }
    }
}

/// Blockquote scan with an explicit depth counter: nested quote starts
/// increment it, quote ends decrement it, and the element closes only when
/// the depth returns to zero — never at an earlier end marker.
pub open spec fn bq_scan_s(events: Seq<MdEvent>, i: int, depth: int, acc: Seq<ElementV>) -> (
    Seq<ElementV>,
    int,
)
    decreases events.len() - i, 3int,
{
    let len = events.len() as int;
    if i < 0 || i >= len {
        (acc, len)
    } else {
        match events[i] {
            MdEvent::End(MdTagEnd::BlockQuote) => {
                if depth <= 1 {
                    (acc, i)
                } else {
                    bq_scan_s(events, i + 1, depth - 1, acc)
                }
            },
            MdEvent::Start(MdTag::BlockQuote) => bq_scan_s(events, i + 1, depth + 1, acc),
            _ => {
                let (el, j) = parse_element_s(events, i);
                let acc2 = match el {
                    Option::Some(e) => acc.push(e),
                    Option::None => acc,
                };
                bq_scan_s(events, onward(len, i, j), depth, acc2)
            },
        }
    }
}

/// Footnote definition scan: contained blocks are parsed recursively until
/// the definition's end marker.
pub open spec fn footnote_scan_s(events: Seq<MdEvent>, i: int, acc: Seq<ElementV>) -> (
    Seq<ElementV>,
    int,
)
    decreases events.len() - i, 3int,
{
    let len = events.len() as int;
    if i < 0 || i >= len {
        (acc, len)
    } else {
        match events[i] {
            MdEvent::End(MdTagEnd::FootnoteDefinition) => (acc, i),
            _ => {
                let (el, j) = parse_element_s(events, i);
                let acc2 = match el {
                    Option::Some(e) => acc.push(e),
                    Option::None => acc,
                };
                footnote_scan_s(events, onward(len, i, j), acc2)
            },
        }
    }
}

/// One block element parsed at `start`, dispatched on the leading event.
/// Anything unrecognized consumes one event and yields no element. Returns
/// the element (if any) and the position parsing resumes at.
pub open spec fn parse_element_s(events: Seq<MdEvent>, start: int) -> (Option<ElementV>, int)
    decreases events.len() - start, 2int,
{
    let len = events.len() as int;
    if start < 0 || start >= len {
        (Option::None, len)
    } else {
        match events[start] {
            MdEvent::Start(MdTag::Heading { level, .. }) => {
                let (content, j) = heading_scan_s(events, start + 1, Seq::empty());
                (Option::Some(ElementV::Heading { level, content }), past_end(len, start, j))
            },
            MdEvent::Start(MdTag::Paragraph) => {
                let (content, j) = parse_inline_s(events, start + 1, Some(MdTagEnd::Paragraph));
                (Option::Some(ElementV::Paragraph { content }), past_end(len, start, j))
            },
            MdEvent::Start(MdTag::CodeBlock { fenced, language }) => {
                let lang = if fenced && language@.len() > 0 {
                    Option::Some(language@)
                } else {
                    Option::None
                };
                let (content, j) = code_scan_s(events, start + 1, Seq::empty());
                (
                    Option::Some(ElementV::CodeBlock { language: lang, content }),
                    past_end(len, start, j),
                )
            },
            MdEvent::Start(MdTag::List { start: first }) => {
                let (items, j) = list_scan_s(events, start + 1, Seq::empty());
                (
                    Option::Some(
                        ElementV::List { ordered: first is Some, start: first, items },
                    ),
                    past_end(len, start, j),
                )
            },
            MdEvent::Start(MdTag::Table { alignments }) => {
                let (headers, rows, j) = table_scan_s(
                    events,
                    start + 1,
                    Seq::empty(),
                    Seq::empty(),
                    Seq::empty(),
                    Seq::empty(),
                );
                (
                    Option::Some(ElementV::Table { headers, alignments: alignments@, rows }),
                    past_end(len, start, j),
                )
            },
            MdEvent::Start(MdTag::BlockQuote) => {
                let (content, j) = bq_scan_s(events, start + 1, 1, Seq::empty());
                (Option::Some(ElementV::BlockQuote { content }), past_end(len, start, j))
            },
            MdEvent::Rule => (Option::Some(ElementV::HorizontalRule), next_at(len, start)),
            MdEvent::Start(MdTag::Image { url, title }) => {
                let (alt, j) = image_alt_s(events, start + 1, Seq::empty());
                let t = if title@.len() == 0 {
                    Option::None
                } else {
                    Option::Some(title@)
                };
                (
                    Option::Some(ElementV::Image { url: url@, alt, title: t }),
                    past_end(len, start, j),
                )
            },
            MdEvent::Start(MdTag::FootnoteDefinition { label }) => {
                let (content, j) = footnote_scan_s(events, start + 1, Seq::empty());
                (
                    Option::Some(ElementV::FootnoteDefinition { label: label@, content }),
                    past_end(len, start, j),
                )
            },
            MdEvent::Html(s) => (Option::Some(ElementV::Html(s@)), next_at(len, start)),
            _ => (Option::None, next_at(len, start)),
        }
    }
}

/// The whole document: blocks parsed one after another from `i` until the
/// stream ends.
pub open spec fn build_from_s(events: Seq<MdEvent>, i: int, acc: Seq<ElementV>) -> Seq<ElementV>
    decreases events.len() - i, 3int,
{
    let len = events.len() as int;
    if i < 0 || i >= len {
        acc
    } else {
        let (el, j) = parse_element_s(events, i);
        let acc2 = match el {
            Option::Some(e) => acc.push(e),
            Option::None => acc,
        };
        build_from_s(events, onward(len, i, j), acc2)
    }
}

/// The document built from an event sequence.
pub open spec fn build_doc_s(events: Seq<MdEvent>) -> DocumentV {
    DocumentV { elements: build_from_s(events, 0, Seq::empty()) }
}

pub open spec fn opt_elem_view(o: Option<Element>) -> Option<ElementV> {
    match o {
        Option::Some(e) => Option::Some(elem_view(e)),
        Option::None => Option::None,
    }
}

/// End-marker matching by tag kind only.
fn tag_end_matches(actual: MdTagEnd, expected: MdTagEnd) -> (r: bool)
    ensures
        r == tag_end_matches_s(actual, expected),
{
    match (actual, expected) {
        (MdTagEnd::Emphasis, MdTagEnd::Emphasis) => true,
        (MdTagEnd::Strong, MdTagEnd::Strong) => true,
        (MdTagEnd::Strikethrough, MdTagEnd::Strikethrough) => true,
        (MdTagEnd::Link, MdTagEnd::Link) => true,
        (MdTagEnd::Image, MdTagEnd::Image) => true,
        (MdTagEnd::Paragraph, MdTagEnd::Paragraph) => true,
        (MdTagEnd::Item, MdTagEnd::Item) => true,
        _ => false,
    }
}

/// Whether the inline scan stops at this event.
fn inline_stops(e: &MdEvent, term: Option<MdTagEnd>) -> (r: bool)
    ensures
        r == inline_stops_s(*e, term),
{
    match term {
        Option::Some(t) => match e {
            MdEvent::End(te) => tag_end_matches(*te, t),
            _ => false,
        },
        Option::None => match e {
            MdEvent::End(MdTagEnd::Paragraph) => true,
            MdEvent::End(MdTagEnd::Item) => true,
            MdEvent::End(MdTagEnd::BlockQuote) => true,
            MdEvent::End(MdTagEnd::FootnoteDefinition) => true,
            _ => false,
        },
    }
}

fn is_image_end(e: &MdEvent) -> (r: bool)
    ensures
        r == (*e matches MdEvent::End(MdTagEnd::Image)),
{
    match e {
        MdEvent::End(MdTagEnd::Image) => true,
        _ => false,
    }
}

/// Accumulates an image's alt text from `Text` events until the image's end.
fn scan_image_alt(events: &Vec<MdEvent>, start: usize) -> (r: (String, usize))
    requires
        start <= events.len(),
    ensures
        r.0@ == image_alt_s(events@, start as int, Seq::empty()).0,
        r.1 as int == image_alt_s(events@, start as int, Seq::empty()).1,
        start <= r.1 <= events.len(),
{
    let mut alt = String::new();
    let mut index = start;
    while index < events.len() && !is_image_end(&events[index])
        invariant
            start <= index <= events.len(),
            image_alt_s(events@, start as int, Seq::empty()) == image_alt_s(
                events@,
                index as int,
                alt@,
            ),
        decreases events.len() - index,
    {
        match &events[index] {
            MdEvent::Text(s) => alt.append(s.as_str()),
            _ => (),
        }
        index += 1;
    }
    (alt, index)
}

/// Parses inline elements recursively, handling nested structures such as
/// strong emphasis around a link. Stops at the expected terminator, at a
/// block boundary when no terminator was supplied, or at end of stream.
fn parse_inline_elements(events: &Vec<MdEvent>, start: usize, term: Option<MdTagEnd>) -> (r: (
    Vec<InlineElement>,
    usize,
))
    requires
        start <= events.len(),
    ensures
        inlines_view(r.0@) == parse_inline_s(events@, start as int, term).0,
        r.1 as int == parse_inline_s(events@, start as int, term).1,
        start <= r.1 <= events.len(),
    decreases events.len() - start, 1int,
{
    let mut elements: Vec<InlineElement> = Vec::new();
    let mut index = start;
    proof {
        lemma_inlines_view_empty();
    }
    while index < events.len() && !inline_stops(&events[index], term)
        invariant
            start <= index <= events.len(),
            parse_inline_s(events@, start as int, term).0 == inlines_view(elements@)
                + parse_inline_s(events@, index as int, term).0,
            parse_inline_s(events@, start as int, term).1 == parse_inline_s(
                events@,
                index as int,
                term,
            ).1,
        decreases events.len() - index,
    {
        let ghost prev = index as int;
        match &events[index] {
            MdEvent::Text(s) => {
                elements.push(InlineElement::Text(s.clone()));
                proof {
                    lemma_inlines_view_push(elements@.drop_last(), elements@.last());
                }
                index += 1;
            },
            MdEvent::Code(s) => {
                elements.push(InlineElement::Code(s.clone()));
                proof {
                    lemma_inlines_view_push(elements@.drop_last(), elements@.last());
                }
                index += 1;
            },
            MdEvent::FootnoteReference(s) => {
                elements.push(InlineElement::FootnoteReference(s.clone()));
                proof {
                    lemma_inlines_view_push(elements@.drop_last(), elements@.last());
                }
                index += 1;
            },
            MdEvent::SoftBreak => {
                elements.push(InlineElement::SoftBreak);
                proof {
                    lemma_inlines_view_push(elements@.drop_last(), elements@.last());
                }
                index += 1;
            },
            MdEvent::HardBreak => {
                elements.push(InlineElement::HardBreak);
                proof {
                    lemma_inlines_view_push(elements@.drop_last(), elements@.last());
                }
                index += 1;
            },
            MdEvent::TaskListMarker(checked) => {
                elements.push(InlineElement::TaskListMarker(*checked));
                proof {
                    lemma_inlines_view_push(elements@.drop_last(), elements@.last());
                }
                index += 1;
            },
            MdEvent::InlineHtml(s) => {
                elements.push(InlineElement::InlineHtml(s.clone()));
                proof {
                    lemma_inlines_view_push(elements@.drop_last(), elements@.last());
                }
                index += 1;
            },
            MdEvent::Start(MdTag::Strong) => {
                let (content, j) = parse_inline_elements(events, index + 1, Some(MdTagEnd::Strong));
                elements.push(InlineElement::Strong(content));
                proof {
                    lemma_inlines_view_push(elements@.drop_last(), elements@.last());
                }
                index = if j < events.len() {
                    j + 1
                } else {
                    j
                };
            },
            MdEvent::Start(MdTag::Emphasis) => {
                let (content, j) = parse_inline_elements(
                    events,
                    index + 1,
                    Some(MdTagEnd::Emphasis),
                );
                elements.push(InlineElement::Emphasis(content));
                proof {
                    lemma_inlines_view_push(elements@.drop_last(), elements@.last());
                }
                index = if j < events.len() {
                    j + 1
                } else {
                    j
                };
            },
            MdEvent::Start(MdTag::Strikethrough) => {
                let (content, j) = parse_inline_elements(
                    events,
                    index + 1,
                    Some(MdTagEnd::Strikethrough),
                );
                elements.push(InlineElement::Strikethrough(content));
                proof {
                    lemma_inlines_view_push(elements@.drop_last(), elements@.last());
                }
                index = if j < events.len() {
                    j + 1
                } else {
                    j
                };
            },
            MdEvent::Start(MdTag::Link { url, title }) => {
                let url = url.clone();
                let title = if title.as_str().is_empty() {
                    Option::None
                } else {
                    Option::Some(title.clone())
                };
                let (content, j) = parse_inline_elements(events, index + 1, Some(MdTagEnd::Link));
                elements.push(InlineElement::Link { url, content, title });
                proof {
                    lemma_inlines_view_push(elements@.drop_last(), elements@.last());
                }
                index = if j < events.len() {
                    j + 1
                } else {
                    j
                };
            },
            MdEvent::Start(MdTag::Image { url, title }) => {
                let url = url.clone();
                let title = if title.as_str().is_empty() {
                    Option::None
                } else {
                    Option::Some(title.clone())
                };
                let (alt, j) = scan_image_alt(events, index + 1);
                elements.push(InlineElement::Image { url, alt, title });
                proof {
                    lemma_inlines_view_push(elements@.drop_last(), elements@.last());
                }
                index = if j < events.len() {
                    j + 1
                } else {
                    j
                };
            },
            _ => {
                index += 1;
            },
        }
    }
    (elements, index)
}

fn is_heading_end(e: &MdEvent) -> (r: bool)
    ensures
        r == (*e matches MdEvent::End(MdTagEnd::Heading(_))),
{
    match e {
        MdEvent::End(MdTagEnd::Heading(_)) => true,
        _ => false,
    }
}

/// Accumulates a heading's text from `Text` and `Code` events until the
/// matching heading end.
fn scan_heading(events: &Vec<MdEvent>, start: usize) -> (r: (String, usize))
    requires
        start <= events.len(),
    ensures
        r.0@ == heading_scan_s(events@, start as int, Seq::empty()).0,
        r.1 as int == heading_scan_s(events@, start as int, Seq::empty()).1,
        start <= r.1 <= events.len(),
{
    let mut content = String::new();
    let mut index = start;
    while index < events.len() && !is_heading_end(&events[index])
        invariant
            start <= index <= events.len(),
            heading_scan_s(events@, start as int, Seq::empty()) == heading_scan_s(
                events@,
                index as int,
                content@,
            ),
        decreases events.len() - index,
    {
        match &events[index] {
            MdEvent::Text(s) => content.append(s.as_str()),
            MdEvent::Code(s) => content.append(s.as_str()),
            _ => (),
        }
        index += 1;
    }
    (content, index)
}

fn is_code_end(e: &MdEvent) -> (r: bool)
    ensures
        r == (*e matches MdEvent::End(MdTagEnd::CodeBlock)),
{
    match e {
        MdEvent::End(MdTagEnd::CodeBlock) => true,
        _ => false,
    }
}

/// Accumulates a code block's literal text until the matching end.
fn scan_code_block(events: &Vec<MdEvent>, start: usize) -> (r: (String, usize))
    requires
        start <= events.len(),
    ensures
        r.0@ == code_scan_s(events@, start as int, Seq::empty()).0,
        r.1 as int == code_scan_s(events@, start as int, Seq::empty()).1,
        start <= r.1 <= events.len(),
{
    let mut content = String::new();
    let mut index = start;
    while index < events.len() && !is_code_end(&events[index])
        invariant
            start <= index <= events.len(),
            code_scan_s(events@, start as int, Seq::empty()) == code_scan_s(
                events@,
                index as int,
                content@,
            ),
        decreases events.len() - index,
    {
        match &events[index] {
            MdEvent::Text(s) => content.append(s.as_str()),
            _ => (),
        }
        index += 1;
    }
    (content, index)
}

/// Clones a vector of strings; the clone of a string is the same value.
fn clone_strings(v: &Vec<String>) -> (r: Vec<String>)
    ensures
        r@ == v@,
{
    let mut r: Vec<String> = Vec::new();
    let mut i: usize = 0;
    while i < v.len()
        invariant
            i <= v.len(),
            r@ == v@.take(i as int),
        decreases v.len() - i,
    {
        r.push(v[i].clone());
        proof {
            assert(r@ =~= v@.take(i + 1 as int));
        }
        i += 1;
    }
    proof {
        assert(v@.take(v@.len() as int) =~= v@);
    }
    r
}

fn is_table_end(e: &MdEvent) -> (r: bool)
    ensures
        r == (*e matches MdEvent::End(MdTagEnd::Table)),
{
    match e {
        MdEvent::End(MdTagEnd::Table) => true,
        _ => false,
    }
}

/// Table scan: flushes the current-row buffer into the headers at the head
/// section's end and into the rows at each row's end; inline code inside a
/// cell is wrapped in backticks.
fn scan_table(events: &Vec<MdEvent>, start: usize) -> (r: (Vec<String>, Vec<Vec<String>>, usize))
    requires
        start <= events.len(),
    ensures
        ({
            let (headers, rows, j) = table_scan_s(
                events@,
                start as int,
                Seq::empty(),
                Seq::empty(),
                Seq::empty(),
                Seq::empty(),
            );
            strings_view(r.0@) == headers && rows_view(r.1@) == rows && r.2 as int == j
        }),
        start <= r.2 <= events.len(),
{
    let mut headers: Vec<String> = Vec::new();
    let mut rows: Vec<Vec<String>> = Vec::new();
    let mut current_row: Vec<String> = Vec::new();
    let mut current_cell = String::new();
    let mut index = start;
    proof {
        lemma_strings_view_empty();
        lemma_rows_view_empty();
    }
    while index < events.len() && !is_table_end(&events[index])
        invariant
            start <= index <= events.len(),
            table_scan_s(
                events@,
                start as int,
                Seq::empty(),
                Seq::empty(),
                Seq::empty(),
                Seq::empty(),
            ) == table_scan_s(
                events@,
                index as int,
                strings_view(headers@),
                rows_view(rows@),
                strings_view(current_row@),
                current_cell@,
            ),
        decreases events.len() - index,
    {
        match &events[index] {
            MdEvent::Start(MdTag::TableHead) => {
                current_row = Vec::new();
                proof {
                    lemma_strings_view_empty();
                }
            },
            MdEvent::End(MdTagEnd::TableHead) => {
                headers = clone_strings(&current_row);
            },
            MdEvent::Start(MdTag::TableRow) => {
                current_row = Vec::new();
                proof {
                    lemma_strings_view_empty();
                }
            },
            MdEvent::End(MdTagEnd::TableRow) => {
                let row_copy = clone_strings(&current_row);
                let ghost oldrows = rows@;
                rows.push(row_copy);
                proof {
                    lemma_rows_view_push(oldrows, row_copy);
                    assert(rows_view(rows@) == rows_view(oldrows).push(strings_view(row_copy@)));
                }
            },
            MdEvent::Start(MdTag::TableCell) => {
                current_cell = String::new();
            },
            MdEvent::End(MdTagEnd::TableCell) => {
                let cell_copy = current_cell.clone();
                let ghost oldrow = current_row@;
                current_row.push(cell_copy);
                proof {
                    lemma_strings_view_push(oldrow, cell_copy);
                    assert(strings_view(current_row@) == strings_view(oldrow).push(cell_copy@));
                }
            },
            MdEvent::Text(s) => {
                current_cell.append(s.as_str());
            },
            MdEvent::Code(s) => {
                let ghost oldcell = current_cell@;
                proof {
                    reveal_strlit("`");
                    assert("`"@ =~= seq!['`']);
                }
                current_cell.append("`");
                current_cell.append(s.as_str());
                current_cell.append("`");
                proof {
                    assert(current_cell@ == cell_text_s(oldcell, events@[index as int]));
                }
            },
            _ => (),
        }
        index += 1;
    }
    (headers, rows, index)
}

fn is_item_end(e: &MdEvent) -> (r: bool)
    ensures
        r == (*e matches MdEvent::End(MdTagEnd::Item)),
{
    match e {
        MdEvent::End(MdTagEnd::Item) => true,
        _ => false,
    }
}

/// One list item's block content, up to the item's end marker. Bare inline
/// runs are wrapped in a synthetic paragraph so the content stays
/// block-level.
fn scan_item_content(events: &Vec<MdEvent>, start: usize) -> (r: (Vec<Element>, usize))
    requires
        start <= events.len(),
    ensures
        elems_view(r.0@) == item_scan_s(events@, start as int, Seq::empty()).0,
        r.1 as int == item_scan_s(events@, start as int, Seq::empty()).1,
        start <= r.1 <= events.len(),
    decreases events.len() - start, 4int,
{
    let mut content: Vec<Element> = Vec::new();
    let mut index = start;
    proof {
        lemma_elems_view_empty();
    }
    while index < events.len() && !is_item_end(&events[index])
        invariant
            start <= index <= events.len(),
            item_scan_s(events@, start as int, Seq::empty()).0 == item_scan_s(
                events@,
                index as int,
                elems_view(content@),
            ).0,
            item_scan_s(events@, start as int, Seq::empty()).1 == item_scan_s(
                events@,
                index as int,
                elems_view(content@),
            ).1,
        decreases events.len() - index,
    {
        let step_block = match &events[index] {
            MdEvent::Start(MdTag::List { .. }) => true,
            MdEvent::Start(MdTag::Paragraph) => true,
            MdEvent::Start(MdTag::CodeBlock { .. }) => true,
            MdEvent::Start(MdTag::BlockQuote) => true,
            MdEvent::Start(MdTag::Table { .. }) => true,
            _ => false,
        };
        let step_inline = match &events[index] {
            MdEvent::Text(_) => true,
            MdEvent::Code(_) => true,
            MdEvent::TaskListMarker(_) => true,
            MdEvent::Start(MdTag::Strong) => true,
            MdEvent::Start(MdTag::Emphasis) => true,
            MdEvent::Start(MdTag::Strikethrough) => true,
            MdEvent::Start(MdTag::Link { .. }) => true,
            _ => false,
        };
        let ghost i0 = index as int;
        let ghost acc0 = elems_view(content@);
        if step_block {
            proof {
                assert(item_scan_s(events@, i0, acc0) == item_block_step_s(events@, i0, acc0));
            }
            let (el, j) = parse_element(events, index);
            match el {
                Option::Some(e) => {
                    let ghost olds = content@;
                    content.push(e);
                    proof {
                        lemma_elems_view_push(olds, e);
                        assert(elems_view(content@) == elems_view(olds).push(elem_view(e)));
                    }
                },
                Option::None => (),
            }
            index = j;
        } else if step_inline {
            proof {
                assert(item_scan_s(events@, i0, acc0) == item_inline_step_s(events@, i0, acc0));
            }
            let (inline_content, j) = parse_inline_elements(events, index, Some(MdTagEnd::Item));
            proof {
                assert(item_inline_step_s(events@, i0, acc0) == item_scan_s(
                    events@,
                    onward(events@.len() as int, i0, parse_inline_s(events@, i0, Some(MdTagEnd::Item)).1),
                    if parse_inline_s(events@, i0, Some(MdTagEnd::Item)).0.len() == 0 {
                        acc0
                    } else {
                        acc0.push(ElementV::Paragraph { content: parse_inline_s(events@, i0, Some(MdTagEnd::Item)).0 })
                    },
                ));
            }
            if inline_content.len() > 0 {
                let ghost olds = content@;
                let para = Element::Paragraph { content: inline_content };
                content.push(para);
                proof {
                    lemma_elems_view_push(olds, para);
                    assert(elems_view(content@) == elems_view(olds).push(elem_view(para)));
                }
            }
            index = if j > index {
                j
            } else {
                index + 1
            };
        } else {
            index += 1;
        }
    }
    (content, index)
}

fn is_list_end(e: &MdEvent) -> (r: bool)
    ensures
        r == (*e matches MdEvent::End(MdTagEnd::List(_))),
{
    match e {
        MdEvent::End(MdTagEnd::List(_)) => true,
        _ => false,
    }
}

/// List scan: parses each item's blocks until the item's end; the list
/// closes at its own end marker.
fn scan_list(events: &Vec<MdEvent>, start: usize) -> (r: (Vec<ListItem>, usize))
    requires
        start <= events.len(),
    ensures
        items_view(r.0@) == list_scan_s(events@, start as int, Seq::empty()).0,
        r.1 as int == list_scan_s(events@, start as int, Seq::empty()).1,
        start <= r.1 <= events.len(),
    decreases events.len() - start, 5int,
{
    let mut items: Vec<ListItem> = Vec::new();
    let mut index = start;
    proof {
        lemma_items_view_empty();
    }
    while index < events.len() && !is_list_end(&events[index])
        invariant
            start <= index <= events.len(),
            list_scan_s(events@, start as int, Seq::empty()).0 == list_scan_s(
                events@,
                index as int,
                items_view(items@),
            ).0,
            list_scan_s(events@, start as int, Seq::empty()).1 == list_scan_s(
                events@,
                index as int,
                items_view(items@),
            ).1,
        decreases events.len() - index,
    {
        let is_item = match &events[index] {
            MdEvent::Start(MdTag::Item) => true,
            _ => false,
        };
        if is_item {
            let (content, j) = scan_item_content(events, index + 1);
            let item = ListItem { content };
            let ghost olds = items@;
            items.push(item);
            proof {
                lemma_items_view_push(olds, item);
                assert(items_view(items@) == items_view(olds).push(item_view(item)));
            }
            index = if j < events.len() {
                j + 1
            } else {
                j
            };
        } else {
            index += 1;
        }
    }
    (items, index)
}

fn is_bq_end(e: &MdEvent) -> (r: bool)
    ensures
        r == (*e matches MdEvent::End(MdTagEnd::BlockQuote)),
{
    match e {
        MdEvent::End(MdTagEnd::BlockQuote) => true,
        _ => false,
    }
}

/// Blockquote scan with an explicit depth counter: the quote closes only
/// when the depth returns to zero, never at an earlier end marker.
fn scan_blockquote(events: &Vec<MdEvent>, start: usize) -> (r: (Vec<Element>, usize))
    requires
        start <= events.len(),
    ensures
        elems_view(r.0@) == bq_scan_s(events@, start as int, 1, Seq::empty()).0,
        r.1 as int == bq_scan_s(events@, start as int, 1, Seq::empty()).1,
        start <= r.1 <= events.len(),
    decreases events.len() - start, 3int,
{
    let mut content: Vec<Element> = Vec::new();
    let mut depth: u128 = 1;
    let mut index = start;
    proof {
        lemma_elems_view_empty();
    }
    while index < events.len() && !(is_bq_end(&events[index]) && depth == 1)
        invariant
            start <= index <= events.len(),
            1 <= depth <= 1 + (index - start),
            bq_scan_s(events@, start as int, 1, Seq::empty()).0 == bq_scan_s(
                events@,
                index as int,
                depth as int,
                elems_view(content@),
            ).0,
            bq_scan_s(events@, start as int, 1, Seq::empty()).1 == bq_scan_s(
                events@,
                index as int,
                depth as int,
                elems_view(content@),
            ).1,
        decreases events.len() - index,
    {
        let is_end = is_bq_end(&events[index]);
        let is_start = match &events[index] {
            MdEvent::Start(MdTag::BlockQuote) => true,
            _ => false,
        };
        if is_end {
            depth -= 1;
            index += 1;
        } else if is_start {
            depth += 1;
            index += 1;
        } else {
            let (el, j) = parse_element(events, index);
            match el {
                Option::Some(e) => {
                    let ghost olds = content@;
                    content.push(e);
                    proof {
                        lemma_elems_view_push(olds, e);
                        assert(elems_view(content@) == elems_view(olds).push(elem_view(e)));
                    }
                },
                Option::None => (),
            }
            index = j;
        }
    }
    (content, index)
}

fn is_footnote_end(e: &MdEvent) -> (r: bool)
    ensures
        r == (*e matches MdEvent::End(MdTagEnd::FootnoteDefinition)),
{
    match e {
        MdEvent::End(MdTagEnd::FootnoteDefinition) => true,
        _ => false,
    }
}

/// Footnote definition scan: contained blocks are parsed recursively until
/// the definition's end marker.
fn scan_footnote(events: &Vec<MdEvent>, start: usize) -> (r: (Vec<Element>, usize))
    requires
        start <= events.len(),
    ensures
        elems_view(r.0@) == footnote_scan_s(events@, start as int, Seq::empty()).0,
        r.1 as int == footnote_scan_s(events@, start as int, Seq::empty()).1,
        start <= r.1 <= events.len(),
    decreases events.len() - start, 3int,
{
    let mut content: Vec<Element> = Vec::new();
    let mut index = start;
    proof {
        lemma_elems_view_empty();
    }
    while index < events.len() && !is_footnote_end(&events[index])
        invariant
            start <= index <= events.len(),
            footnote_scan_s(events@, start as int, Seq::empty()).0 == footnote_scan_s(
                events@,
                index as int,
                elems_view(content@),
            ).0,
            footnote_scan_s(events@, start as int, Seq::empty()).1 == footnote_scan_s(
                events@,
                index as int,
                elems_view(content@),
            ).1,
        decreases events.len() - index,
    {
        let (el, j) = parse_element(events, index);
        match el {
            Option::Some(e) => {
                let ghost olds = content@;
                content.push(e);
                proof {
                    lemma_elems_view_push(olds, e);
                    assert(elems_view(content@) == elems_view(olds).push(elem_view(e)));
                }
            },
            Option::None => (),
        }
        index = j;
    }
    (content, index)
}

/// Copies a table tag's per-column alignments.
pub(crate) fn copy_aligns(v: &Vec<crate::ast::Alignment>) -> (r: Vec<crate::ast::Alignment>)
    ensures
        r@ == v@,
{
    let mut r: Vec<crate::ast::Alignment> = Vec::new();
    let mut i: usize = 0;
    while i < v.len()
        invariant
            i <= v.len(),
            r@ == v@.take(i as int),
        decreases v.len() - i,
    {
        r.push(v[i]);
        proof {
            assert(r@ =~= v@.take(i + 1 as int));
        }
        i += 1;
    }
    proof {
        assert(v@.take(v@.len() as int) =~= v@);
    }
    r
}

/// Parses one block element at `start`, dispatching on the leading event.
/// Anything unrecognized consumes one event and yields no element.
fn parse_element(events: &Vec<MdEvent>, start: usize) -> (r: (Option<Element>, usize))
    requires
        start <= events.len(),
    ensures
        opt_elem_view(r.0) == parse_element_s(events@, start as int).0,
        r.1 as int == parse_element_s(events@, start as int).1,
        r.1 <= events.len(),
        start < events.len() ==> start < r.1,
        start >= events.len() ==> r.1 == events.len(),
    decreases events.len() - start, 2int,
{
    if start >= events.len() {
        return (Option::None, events.len());
    }
    match &events[start] {
        MdEvent::Start(MdTag::Heading { level, .. }) => {
            let level = *level;
            let (content, j) = scan_heading(events, start + 1);
            let next = if j < events.len() {
                j + 1
            } else {
                j
            };
            (Option::Some(Element::Heading { level, content }), next)
        },
        MdEvent::Start(MdTag::Paragraph) => {
            let (content, j) = parse_inline_elements(events, start + 1, Some(MdTagEnd::Paragraph));
            let next = if j < events.len() {
                j + 1
            } else {
                j
            };
            (Option::Some(Element::Paragraph { content }), next)
        },
        MdEvent::Start(MdTag::CodeBlock { fenced, language }) => {
            let language = if *fenced && !language.as_str().is_empty() {
                Option::Some(language.clone())
            } else {
                Option::None
            };
            let (content, j) = scan_code_block(events, start + 1);
            let next = if j < events.len() {
                j + 1
            } else {
                j
            };
            (Option::Some(Element::CodeBlock { language, content }), next)
        },
        MdEvent::Start(MdTag::List { start: first }) => {
            let ordered = first.is_some();
            let first = *first;
            let (items, j) = scan_list(events, start + 1);
            let next = if j < events.len() {
                j + 1
            } else {
                j
            };
            (Option::Some(Element::List { ordered, start: first, items }), next)
        },
        MdEvent::Start(MdTag::Table { alignments }) => {
            let alignments = copy_aligns(alignments);
            let (headers, rows, j) = scan_table(events, start + 1);
            let next = if j < events.len() {
                j + 1
            } else {
                j
            };
            (Option::Some(Element::Table { headers, alignments, rows }), next)
        },
        MdEvent::Start(MdTag::BlockQuote) => {
            let (content, j) = scan_blockquote(events, start + 1);
            let next = if j < events.len() {
                j + 1
            } else {
                j
            };
            (Option::Some(Element::BlockQuote { content }), next)
        },
        MdEvent::Rule => (Option::Some(Element::HorizontalRule), start + 1),
        MdEvent::Start(MdTag::Image { url, title }) => {
            let url = url.clone();
            let title = if title.as_str().is_empty() {
                Option::None
            } else {
                Option::Some(title.clone())
            };
            let (alt, j) = scan_image_alt(events, start + 1);
            let next = if j < events.len() {
                j + 1
            } else {
                j
            };
            (Option::Some(Element::Image { url, alt, title }), next)
        },
        MdEvent::Start(MdTag::FootnoteDefinition { label }) => {
            let label = label.clone();
            let (content, j) = scan_footnote(events, start + 1);
            let next = if j < events.len() {
                j + 1
            } else {
                j
            };
            (Option::Some(Element::FootnoteDefinition { label, content }), next)
        },
        MdEvent::Html(s) => (Option::Some(Element::Html(s.clone())), start + 1),
        _ => (Option::None, start + 1),
    }
}

/// Builds a document from an event stream: repeatedly consumes one block
/// until the stream ends. Total — it never fails, and the index always
/// advances.
pub fn build_document(events: &Vec<MdEvent>) -> (doc: Document)
    ensures
        doc@ == build_doc_s(events@),
{
    let mut elements: Vec<Element> = Vec::new();
    let mut index: usize = 0;
    proof {
        lemma_elems_view_empty();
    }
    while index < events.len()
        invariant
            index <= events.len(),
            build_from_s(events@, 0, Seq::empty()) == build_from_s(
                events@,
                index as int,
                elems_view(elements@),
            ),
        decreases events.len() - index,
    {
        let (el, j) = parse_element(events, index);
        match el {
            Option::Some(e) => {
                let ghost olds = elements@;
                elements.push(e);
                proof {
                    lemma_elems_view_push(olds, e);
                    assert(elems_view(elements@) == elems_view(olds).push(elem_view(e)));
                }
            },
            Option::None => (),
        }
        index = j;
    }
    Document { elements }
}

/// Parses a Markdown string into a document: the external lexer tokenizes
/// the text, and the verified builder turns the event stream into the
/// document model.
pub fn parse_markdown(input: &str) -> (doc: Document)
    ensures
        doc@ == build_doc_s(md_events_of(input@)),
{
    let events = tokenize(input);
    build_document(&events)
}

/// The builder is total: consuming one block always advances the index and
/// never runs past the end of the stream, whatever the event sequence —
/// unmatched or overlapping terminators included. Together with the
/// termination of every spec function above, this is why parsing can
/// neither fail nor hang: it stops at end of stream at the latest.
pub proof fn lemma_parse_element_advances(events: Seq<MdEvent>, start: int)
    requires
        0 <= start < events.len(),
    ensures
        start < parse_element_s(events, start).1 <= events.len(),
{
}

/// A quote nested inside another quote closes only at the second matching
/// end marker, never at the first: whatever the continuation of the stream,
/// the blockquote element consumes the inner paragraph and both end markers,
/// and keeps the inner content.
pub proof fn lemma_blockquote_depth(t: String, rest: Seq<MdEvent>)
    ensures
        ({
            let events = seq![
                MdEvent::Start(MdTag::BlockQuote),
                MdEvent::Start(MdTag::BlockQuote),
                MdEvent::Start(MdTag::Paragraph),
                MdEvent::Text(t),
                MdEvent::End(MdTagEnd::Paragraph),
                MdEvent::End(MdTagEnd::BlockQuote),
                MdEvent::End(MdTagEnd::BlockQuote),
            ] + rest;
            parse_element_s(events, 0) == (
                Option::Some(
                    ElementV::BlockQuote {
                        content: seq![
                            ElementV::Paragraph { content: seq![InlineV::Text(t@)] },
                        ],
                    },
                ),
                7int,
            )
        }),
{
    let pre = seq![
        MdEvent::Start(MdTag::BlockQuote),
        MdEvent::Start(MdTag::BlockQuote),
        MdEvent::Start(MdTag::Paragraph),
        MdEvent::Text(t),
        MdEvent::End(MdTagEnd::Paragraph),
        MdEvent::End(MdTagEnd::BlockQuote),
        MdEvent::End(MdTagEnd::BlockQuote),
    ];
    let events = pre + rest;
    let len = events.len() as int;
    assert(len >= 7);
    assert(events[0] == MdEvent::Start(MdTag::BlockQuote));
    assert(events[1] == MdEvent::Start(MdTag::BlockQuote));
    assert(events[2] == MdEvent::Start(MdTag::Paragraph));
    assert(events[3] == MdEvent::Text(t));
    assert(events[4] == MdEvent::End(MdTagEnd::Paragraph));
    assert(events[5] == MdEvent::End(MdTagEnd::BlockQuote));
    assert(events[6] == MdEvent::End(MdTagEnd::BlockQuote));
    // The inline scan of the inner paragraph stops at its end marker.
    assert(parse_inline_s(events, 4, Some(MdTagEnd::Paragraph)) == (
        Seq::<InlineV>::empty(),
        4int,
    ));
    assert(parse_inline_s(events, 3, Some(MdTagEnd::Paragraph)) == (
        seq![InlineV::Text(t@)] + Seq::<InlineV>::empty(),
        4int,
    ));
    assert(seq![InlineV::Text(t@)] + Seq::<InlineV>::empty() =~= seq![InlineV::Text(t@)]);
    // The inner paragraph is one parsed element.
    assert(parse_element_s(events, 2) == (
        Option::Some(ElementV::Paragraph { content: seq![InlineV::Text(t@)] }),
        5int,
    ));
    // The quote scan passes the first end marker at depth two and closes at
    // the second.
    assert(bq_scan_s(events, 6, 1, seq![ElementV::Paragraph { content: seq![InlineV::Text(t@)] }])
        == (seq![ElementV::Paragraph { content: seq![InlineV::Text(t@)] }], 6int));
    assert(bq_scan_s(events, 5, 2, seq![ElementV::Paragraph { content: seq![InlineV::Text(t@)] }])
        == (seq![ElementV::Paragraph { content: seq![InlineV::Text(t@)] }], 6int));
    assert(bq_scan_s(events, 2, 2, Seq::empty()) == (
        seq![ElementV::Paragraph { content: seq![InlineV::Text(t@)] }],
        6int,
    )) by {
        assert(Seq::<ElementV>::empty().push(
            ElementV::Paragraph { content: seq![InlineV::Text(t@)] },
        ) =~= seq![ElementV::Paragraph { content: seq![InlineV::Text(t@)] }]);
    }
    assert(bq_scan_s(events, 1, 1, Seq::empty()) == (
        seq![ElementV::Paragraph { content: seq![InlineV::Text(t@)] }],
        6int,
    ));
}

} // verus!
