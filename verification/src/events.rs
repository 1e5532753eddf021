//! The flat token-event stream that the document-model builder consumes.
//!
//! The stream itself comes from an external Markdown lexer (pulldown-cmark);
//! the library holds it as plain values of its own `MdEvent` type, so that
//! everything downstream of the lexer is verified.

use vstd::prelude::*;

verus! {

/// Start marker payload of a container event.
#[derive(Debug, Clone)]
pub enum MdTag {
    Paragraph,
    Heading { level: u8, id: Option<String> },
    BlockQuote,
    /// `fenced` is false for indented code blocks; `language` is the fence's
    /// info string (empty for an empty fence tag or an indented block).
    CodeBlock { fenced: bool, language: String },
    HtmlBlock,
    /// `start` is the first item number of an ordered list, `None` for an
    /// unordered list.
    List { start: Option<u64> },
    Item,
    FootnoteDefinition { label: String },
    Table { alignments: Vec<crate::ast::Alignment> },
    TableHead,
    TableRow,
    TableCell,
    Emphasis,
    Strong,
    Strikethrough,
    Link { url: String, title: String },
    Image { url: String, title: String },
    /// A container kind this library does not support; the builder skips it.
    Other,
}

/// End marker of a container event. Matching against a start marker goes by
/// kind only; the payloads exist so that an event sequence can be handed back
/// to an HTML writer unchanged.
#[derive(Debug, Clone, Copy)]
pub enum MdTagEnd {
    Paragraph,
    Heading(u8),
    BlockQuote,
    CodeBlock,
    HtmlBlock,
    List(bool),
    Item,
    FootnoteDefinition,
    Table,
    TableHead,
    TableRow,
    TableCell,
    Emphasis,
    Strong,
    Strikethrough,
    Link,
    Image,
    Other,
}

/// One event of the flat token stream.
#[derive(Debug, Clone)]
pub enum MdEvent {
    Start(MdTag),
    End(MdTagEnd),
    Text(String),
    Code(String),
    Html(String),
    InlineHtml(String),
    FootnoteReference(String),
    SoftBreak,
    HardBreak,
    Rule,
    TaskListMarker(bool),
    /// A leaf event this library does not support; the builder skips it.
    Other,
}

/// The event sequence that the Markdown lexer produces for a given input,
/// under this library's fixed option set (tables, strikethrough, task lists
/// and footnotes enabled), written in this library's event type. The lexer's
/// output is a function of the input text alone.
pub uninterp spec fn md_events_of(input: Seq<char>) -> Seq<MdEvent>;

/// Mathematical mirror of `MdTag`.
pub enum MdTagV {
    Paragraph,
    Heading { level: u8, id: Option<Seq<char>> },
    BlockQuote,
    CodeBlock { fenced: bool, language: Seq<char> },
    HtmlBlock,
    List { start: Option<u64> },
    Item,
    FootnoteDefinition { label: Seq<char> },
    Table { alignments: Seq<crate::ast::Alignment> },
    TableHead,
    TableRow,
    TableCell,
    Emphasis,
    Strong,
    Strikethrough,
    Link { url: Seq<char>, title: Seq<char> },
    Image { url: Seq<char>, title: Seq<char> },
    Other,
}

/// Mathematical mirror of `MdEvent`. End markers carry no text, so they
/// stand for themselves.
pub enum MdEventV {
    Start(MdTagV),
    End(MdTagEnd),
    Text(Seq<char>),
    Code(Seq<char>),
    Html(Seq<char>),
    InlineHtml(Seq<char>),
    FootnoteReference(Seq<char>),
    SoftBreak,
    HardBreak,
    Rule,
    TaskListMarker(bool),
    Other,
}

pub open spec fn tag_view(t: MdTag) -> MdTagV {
    match t {
        MdTag::Paragraph => MdTagV::Paragraph,
        MdTag::Heading { level, id } => MdTagV::Heading {
            level,
            id: match id {
                Option::Some(s) => Option::Some(s@),
                Option::None => Option::None,
            },
        },
        MdTag::BlockQuote => MdTagV::BlockQuote,
        MdTag::CodeBlock { fenced, language } => MdTagV::CodeBlock { fenced, language: language@ },
        MdTag::HtmlBlock => MdTagV::HtmlBlock,
        MdTag::List { start } => MdTagV::List { start },
        MdTag::Item => MdTagV::Item,
        MdTag::FootnoteDefinition { label } => MdTagV::FootnoteDefinition { label: label@ },
        MdTag::Table { alignments } => MdTagV::Table { alignments: alignments@ },
        MdTag::TableHead => MdTagV::TableHead,
        MdTag::TableRow => MdTagV::TableRow,
        MdTag::TableCell => MdTagV::TableCell,
        MdTag::Emphasis => MdTagV::Emphasis,
        MdTag::Strong => MdTagV::Strong,
        MdTag::Strikethrough => MdTagV::Strikethrough,
        MdTag::Link { url, title } => MdTagV::Link { url: url@, title: title@ },
        MdTag::Image { url, title } => MdTagV::Image { url: url@, title: title@ },
        MdTag::Other => MdTagV::Other,
    }
}

pub open spec fn event_view(e: MdEvent) -> MdEventV {
    match e {
        MdEvent::Start(t) => MdEventV::Start(tag_view(t)),
        MdEvent::End(te) => MdEventV::End(te),
        MdEvent::Text(s) => MdEventV::Text(s@),
        MdEvent::Code(s) => MdEventV::Code(s@),
        MdEvent::Html(s) => MdEventV::Html(s@),
        MdEvent::InlineHtml(s) => MdEventV::InlineHtml(s@),
        MdEvent::FootnoteReference(s) => MdEventV::FootnoteReference(s@),
        MdEvent::SoftBreak => MdEventV::SoftBreak,
        MdEvent::HardBreak => MdEventV::HardBreak,
        MdEvent::Rule => MdEventV::Rule,
        MdEvent::TaskListMarker(b) => MdEventV::TaskListMarker(b),
        MdEvent::Other => MdEventV::Other,
    }
}

impl View for MdEvent {
    type V = MdEventV;

    open spec fn view(&self) -> MdEventV {
        event_view(*self)
    }
}

pub open spec fn events_view(s: Seq<MdEvent>) -> Seq<MdEventV> {
    Seq::new(s.len(), |i: int| event_view(s[i]))
}

pub proof fn lemma_events_view_empty()
    ensures
        events_view(Seq::empty()) == Seq::<MdEventV>::empty(),
{
    assert(events_view(Seq::empty()) =~= Seq::<MdEventV>::empty());
}

pub proof fn lemma_events_view_push(s: Seq<MdEvent>, x: MdEvent)
    ensures
        events_view(s.push(x)) == events_view(s).push(event_view(x)),
{
    assert(events_view(s.push(x)) =~= events_view(s).push(event_view(x)));
}

/// An event this library can hand back to the HTML writer: everything but
/// the unsupported-kind placeholders.
pub open spec fn renderable_event(e: MdEventV) -> bool {
    match e {
        MdEventV::Other => false,
        MdEventV::Start(MdTagV::Other) => false,
        MdEventV::End(MdTagEnd::Other) => false,
        _ => true,
    }
}

/// What pulldown-cmark's HTML writer produces for an event sequence: a
/// function of the events alone.
pub uninterp spec fn html_of(events: Seq<MdEventV>) -> Seq<char>;

#[verifier::external_type_specification]
#[verifier::external_body]
pub struct ExEvent<'a>(pulldown_cmark::Event<'a>);

#[verifier::external_type_specification]
#[verifier::external_body]
pub struct ExTag<'a>(pulldown_cmark::Tag<'a>);

#[verifier::external_type_specification]
#[verifier::external_body]
pub struct ExTagEnd(pulldown_cmark::TagEnd);

#[verifier::external_type_specification]
#[verifier::external_body]
pub struct ExHeadingLevel(pulldown_cmark::HeadingLevel);

/// Relies on pulldown-cmark's `HeadingLevel`: its six variants stand for
/// heading levels one through six. One arm per variant.
#[verifier::external_body]
fn heading_level_of(level: pulldown_cmark::HeadingLevel) -> u8 {
    match level {
        pulldown_cmark::HeadingLevel::H1 => 1,
        pulldown_cmark::HeadingLevel::H2 => 2,
        pulldown_cmark::HeadingLevel::H3 => 3,
        pulldown_cmark::HeadingLevel::H4 => 4,
        pulldown_cmark::HeadingLevel::H5 => 5,
        pulldown_cmark::HeadingLevel::H6 => 6,
    }
}

/// Converts a table start tag: each per-column alignment maps to this
/// library's alignment, one arm per variant.
#[verifier::external_body]
fn table_tag_of(tag: pulldown_cmark::Tag) -> MdTag {
    match tag {
        pulldown_cmark::Tag::Table(aligns) => MdTag::Table {
            alignments: aligns.into_iter().map(|a| match a {
                pulldown_cmark::Alignment::None => crate::ast::Alignment::Unspecified,
                pulldown_cmark::Alignment::Left => crate::ast::Alignment::Left,
                pulldown_cmark::Alignment::Center => crate::ast::Alignment::Center,
                pulldown_cmark::Alignment::Right => crate::ast::Alignment::Right,
            }).collect(),
        },
        _ => MdTag::Other,
    }
}

/// Converts a heading start tag, moving the level and identifier.
#[verifier::external_body]
fn heading_tag_of(tag: pulldown_cmark::Tag) -> MdTag {
    match tag {
        pulldown_cmark::Tag::Heading { level, id, .. } => MdTag::Heading {
            level: heading_level_of(level),
            id: id.map(|s| s.to_string()),
        },
        _ => MdTag::Other,
    }
}

/// Converts a code block start tag, one arm per fence kind.
#[verifier::external_body]
fn code_tag_of(tag: pulldown_cmark::Tag) -> MdTag {
    match tag {
        pulldown_cmark::Tag::CodeBlock(pulldown_cmark::CodeBlockKind::Fenced(lang)) =>
            MdTag::CodeBlock { fenced: true, language: lang.to_string() },
        pulldown_cmark::Tag::CodeBlock(pulldown_cmark::CodeBlockKind::Indented) =>
            MdTag::CodeBlock { fenced: false, language: String::new() },
        _ => MdTag::Other,
    }
}

/// Converts one pulldown-cmark start tag, one arm per variant, moving fields.
/// Container kinds outside this library's model map to `MdTag::Other`.
#[verifier::external_body]
fn md_tag_of(tag: pulldown_cmark::Tag) -> MdTag {
    match tag {
        pulldown_cmark::Tag::Paragraph => MdTag::Paragraph,
        t @ pulldown_cmark::Tag::Heading { .. } => heading_tag_of(t),
        pulldown_cmark::Tag::BlockQuote(_) => MdTag::BlockQuote,
        t @ pulldown_cmark::Tag::CodeBlock(_) => code_tag_of(t),
        pulldown_cmark::Tag::HtmlBlock => MdTag::HtmlBlock,
        pulldown_cmark::Tag::List(start) => MdTag::List { start },
        pulldown_cmark::Tag::Item => MdTag::Item,
        other => md_tag_more_of(other),
    }
}

/// Converts a footnote definition start tag, moving the label.
#[verifier::external_body]
fn footnote_tag_of(tag: pulldown_cmark::Tag) -> MdTag {
    match tag {
        pulldown_cmark::Tag::FootnoteDefinition(label) =>
            MdTag::FootnoteDefinition { label: label.to_string() },
        _ => MdTag::Other,
    }
}

/// Converts a link or image start tag, moving the destination and title.
#[verifier::external_body]
fn link_tag_of(tag: pulldown_cmark::Tag) -> MdTag {
    match tag {
        pulldown_cmark::Tag::Link { dest_url, title, .. } =>
            MdTag::Link { url: dest_url.to_string(), title: title.to_string() },
        pulldown_cmark::Tag::Image { dest_url, title, .. } =>
            MdTag::Image { url: dest_url.to_string(), title: title.to_string() },
        _ => MdTag::Other,
    }
}

/// Second half of the start-tag conversion, one arm per variant.
#[verifier::external_body]
fn md_tag_more_of(tag: pulldown_cmark::Tag) -> MdTag {
    match tag {
        t @ pulldown_cmark::Tag::FootnoteDefinition(_) => footnote_tag_of(t),
        t @ pulldown_cmark::Tag::Table(_) => table_tag_of(t),
        pulldown_cmark::Tag::TableHead => MdTag::TableHead,
        pulldown_cmark::Tag::TableRow => MdTag::TableRow,
        pulldown_cmark::Tag::TableCell => MdTag::TableCell,
        pulldown_cmark::Tag::Emphasis => MdTag::Emphasis,
        pulldown_cmark::Tag::Strong => MdTag::Strong,
        pulldown_cmark::Tag::Strikethrough => MdTag::Strikethrough,
        t @ pulldown_cmark::Tag::Link { .. } => link_tag_of(t),
        t @ pulldown_cmark::Tag::Image { .. } => link_tag_of(t),
        _ => MdTag::Other,
    }
}

/// Converts one pulldown-cmark end tag, one arm per variant.
#[verifier::external_body]
fn md_tag_end_of(te: pulldown_cmark::TagEnd) -> MdTagEnd {
    match te {
        pulldown_cmark::TagEnd::Paragraph => MdTagEnd::Paragraph,
        pulldown_cmark::TagEnd::Heading(level) => MdTagEnd::Heading(heading_level_of(level)),
        pulldown_cmark::TagEnd::BlockQuote(_) => MdTagEnd::BlockQuote,
        pulldown_cmark::TagEnd::CodeBlock => MdTagEnd::CodeBlock,
        pulldown_cmark::TagEnd::HtmlBlock => MdTagEnd::HtmlBlock,
        pulldown_cmark::TagEnd::List(ordered) => MdTagEnd::List(ordered),
        pulldown_cmark::TagEnd::Item => MdTagEnd::Item,
        pulldown_cmark::TagEnd::FootnoteDefinition => MdTagEnd::FootnoteDefinition,
        other => md_tag_end_more_of(other),
    }
}

/// Second half of the end-tag conversion, one arm per variant.
#[verifier::external_body]
fn md_tag_end_more_of(te: pulldown_cmark::TagEnd) -> MdTagEnd {
    match te {
        pulldown_cmark::TagEnd::Table => MdTagEnd::Table,
        pulldown_cmark::TagEnd::TableHead => MdTagEnd::TableHead,
        pulldown_cmark::TagEnd::TableRow => MdTagEnd::TableRow,
        pulldown_cmark::TagEnd::TableCell => MdTagEnd::TableCell,
        pulldown_cmark::TagEnd::Emphasis => MdTagEnd::Emphasis,
        pulldown_cmark::TagEnd::Strong => MdTagEnd::Strong,
        pulldown_cmark::TagEnd::Strikethrough => MdTagEnd::Strikethrough,
        pulldown_cmark::TagEnd::Link => MdTagEnd::Link,
        pulldown_cmark::TagEnd::Image => MdTagEnd::Image,
        _ => MdTagEnd::Other,
    }
}

/// Second half of the event conversion, one arm per variant.
#[verifier::external_body]
fn md_event_more_of(e: pulldown_cmark::Event) -> MdEvent {
    match e {
        pulldown_cmark::Event::FootnoteReference(s) => MdEvent::FootnoteReference(s.to_string()),
        pulldown_cmark::Event::SoftBreak => MdEvent::SoftBreak,
        pulldown_cmark::Event::HardBreak => MdEvent::HardBreak,
        pulldown_cmark::Event::Rule => MdEvent::Rule,
        pulldown_cmark::Event::TaskListMarker(checked) => MdEvent::TaskListMarker(checked),
        _ => MdEvent::Other,
    }
}

/// Converts one pulldown-cmark event, one arm per variant, moving fields.
#[verifier::external_body]
fn md_event_of(e: pulldown_cmark::Event) -> MdEvent {
    match e {
        pulldown_cmark::Event::Start(tag) => MdEvent::Start(md_tag_of(tag)),
        pulldown_cmark::Event::End(te) => MdEvent::End(md_tag_end_of(te)),
        pulldown_cmark::Event::Text(s) => MdEvent::Text(s.to_string()),
        pulldown_cmark::Event::Code(s) => MdEvent::Code(s.to_string()),
        pulldown_cmark::Event::Html(s) => MdEvent::Html(s.to_string()),
        pulldown_cmark::Event::InlineHtml(s) => MdEvent::InlineHtml(s.to_string()),
        other => md_event_more_of(other),
    }
}

/// Converts a heading level back to pulldown-cmark's, one arm per level.
#[verifier::external_body]
fn heading_level_back(level: u8) -> pulldown_cmark::HeadingLevel {
    match level {
        1 => pulldown_cmark::HeadingLevel::H1,
        2 => pulldown_cmark::HeadingLevel::H2,
        3 => pulldown_cmark::HeadingLevel::H3,
        4 => pulldown_cmark::HeadingLevel::H4,
        5 => pulldown_cmark::HeadingLevel::H5,
        _ => pulldown_cmark::HeadingLevel::H6,
    }
}

/// Converts a heading start tag back to pulldown-cmark's, moving the level
/// and anchor; classes and attributes stay empty, as the lexer's fixed
/// option set never produces them.
#[verifier::external_body]
fn heading_tag_back(level: u8, id: Option<String>) -> pulldown_cmark::Tag<'static> {
    pulldown_cmark::Tag::Heading {
        level: heading_level_back(level),
        id: id.map(|s| s.into()),
        classes: vec![],
        attrs: vec![],
    }
}

/// Converts a code block start tag back to pulldown-cmark's, one arm per
/// fence kind.
#[verifier::external_body]
fn code_tag_back(fenced: bool, language: String) -> pulldown_cmark::Tag<'static> {
    if fenced {
        pulldown_cmark::Tag::CodeBlock(pulldown_cmark::CodeBlockKind::Fenced(language.into()))
    } else {
        pulldown_cmark::Tag::CodeBlock(pulldown_cmark::CodeBlockKind::Indented)
    }
}

/// Converts one start tag back to pulldown-cmark's, one arm per variant,
/// moving fields. The unsupported-kind placeholder cannot reach this
/// conversion: callers pass renderable events only.
#[verifier::external_body]
fn tag_back(t: MdTag) -> pulldown_cmark::Tag<'static> {
    match t {
        MdTag::Paragraph => pulldown_cmark::Tag::Paragraph,
        MdTag::Heading { level, id } => heading_tag_back(level, id),
        MdTag::BlockQuote => pulldown_cmark::Tag::BlockQuote(Option::None),
        MdTag::CodeBlock { fenced, language } => code_tag_back(fenced, language),
        MdTag::HtmlBlock => pulldown_cmark::Tag::HtmlBlock,
        MdTag::List { start } => pulldown_cmark::Tag::List(start),
        MdTag::Item => pulldown_cmark::Tag::Item,
        other => tag_more_back(other),
    }
}

/// Converts a table start tag back: each per-column alignment maps to
/// pulldown-cmark's, one arm per variant.
#[verifier::external_body]
fn table_tag_back(alignments: Vec<crate::ast::Alignment>) -> pulldown_cmark::Tag<'static> {
    pulldown_cmark::Tag::Table(
        alignments.into_iter().map(|a| match a {
            crate::ast::Alignment::Unspecified => pulldown_cmark::Alignment::None,
            crate::ast::Alignment::Left => pulldown_cmark::Alignment::Left,
            crate::ast::Alignment::Center => pulldown_cmark::Alignment::Center,
            crate::ast::Alignment::Right => pulldown_cmark::Alignment::Right,
        }).collect(),
    )
}

/// Second half of the start-tag back-conversion, one arm per variant.
#[verifier::external_body]
fn tag_more_back(t: MdTag) -> pulldown_cmark::Tag<'static> {
    match t {
        MdTag::FootnoteDefinition { label } => pulldown_cmark::Tag::FootnoteDefinition(
            label.into(),
        ),
        MdTag::Table { alignments } => table_tag_back(alignments),
        MdTag::TableHead => pulldown_cmark::Tag::TableHead,
        MdTag::TableRow => pulldown_cmark::Tag::TableRow,
        MdTag::TableCell => pulldown_cmark::Tag::TableCell,
        MdTag::Emphasis => pulldown_cmark::Tag::Emphasis,
        MdTag::Strong => pulldown_cmark::Tag::Strong,
        MdTag::Strikethrough => pulldown_cmark::Tag::Strikethrough,
        other => link_tag_back(other),
    }
}

/// Last part of the start-tag back-conversion: links and images.
#[verifier::external_body]
fn link_tag_back(t: MdTag) -> pulldown_cmark::Tag<'static> {
    match t {
        MdTag::Link { url, title } => pulldown_cmark::Tag::Link {
            link_type: pulldown_cmark::LinkType::Inline,
            dest_url: url.into(),
            title: title.into(),
            id: "".into(),
        },
        MdTag::Image { url, title } => pulldown_cmark::Tag::Image {
            link_type: pulldown_cmark::LinkType::Inline,
            dest_url: url.into(),
            title: title.into(),
            id: "".into(),
        },
        _ => pulldown_cmark::Tag::Paragraph,
    }
}

/// Converts one end tag back to pulldown-cmark's, one arm per variant.
#[verifier::external_body]
fn tag_end_back(te: MdTagEnd) -> pulldown_cmark::TagEnd {
    match te {
        MdTagEnd::Paragraph => pulldown_cmark::TagEnd::Paragraph,
        MdTagEnd::Heading(level) => pulldown_cmark::TagEnd::Heading(heading_level_back(level)),
        MdTagEnd::BlockQuote => pulldown_cmark::TagEnd::BlockQuote(Option::None),
        MdTagEnd::CodeBlock => pulldown_cmark::TagEnd::CodeBlock,
        MdTagEnd::HtmlBlock => pulldown_cmark::TagEnd::HtmlBlock,
        MdTagEnd::List(ordered) => pulldown_cmark::TagEnd::List(ordered),
        MdTagEnd::Item => pulldown_cmark::TagEnd::Item,
        MdTagEnd::FootnoteDefinition => pulldown_cmark::TagEnd::FootnoteDefinition,
        other => tag_end_more_back(other),
    }
}

/// Second half of the end-tag back-conversion, one arm per variant.
#[verifier::external_body]
fn tag_end_more_back(te: MdTagEnd) -> pulldown_cmark::TagEnd {
    match te {
        MdTagEnd::Table => pulldown_cmark::TagEnd::Table,
        MdTagEnd::TableHead => pulldown_cmark::TagEnd::TableHead,
        MdTagEnd::TableRow => pulldown_cmark::TagEnd::TableRow,
        MdTagEnd::TableCell => pulldown_cmark::TagEnd::TableCell,
        MdTagEnd::Emphasis => pulldown_cmark::TagEnd::Emphasis,
        MdTagEnd::Strong => pulldown_cmark::TagEnd::Strong,
        MdTagEnd::Strikethrough => pulldown_cmark::TagEnd::Strikethrough,
        MdTagEnd::Link => pulldown_cmark::TagEnd::Link,
        MdTagEnd::Image => pulldown_cmark::TagEnd::Image,
        _ => pulldown_cmark::TagEnd::Paragraph,
    }
}

/// Second half of the event back-conversion, one arm per variant.
#[verifier::external_body]
fn event_more_back(e: MdEvent) -> pulldown_cmark::Event<'static> {
    match e {
        MdEvent::FootnoteReference(s) => pulldown_cmark::Event::FootnoteReference(s.into()),
        MdEvent::SoftBreak => pulldown_cmark::Event::SoftBreak,
        MdEvent::HardBreak => pulldown_cmark::Event::HardBreak,
        MdEvent::Rule => pulldown_cmark::Event::Rule,
        MdEvent::TaskListMarker(checked) => pulldown_cmark::Event::TaskListMarker(checked),
        _ => pulldown_cmark::Event::Text("".into()),
    }
}

/// Converts one event back to pulldown-cmark's, one arm per variant, moving
/// fields.
#[verifier::external_body]
fn event_back(e: MdEvent) -> pulldown_cmark::Event<'static> {
    match e {
        MdEvent::Start(t) => pulldown_cmark::Event::Start(tag_back(t)),
        MdEvent::End(te) => pulldown_cmark::Event::End(tag_end_back(te)),
        MdEvent::Text(s) => pulldown_cmark::Event::Text(s.into()),
        MdEvent::Code(s) => pulldown_cmark::Event::Code(s.into()),
        MdEvent::Html(s) => pulldown_cmark::Event::Html(s.into()),
        MdEvent::InlineHtml(s) => pulldown_cmark::Event::InlineHtml(s.into()),
        other => event_more_back(other),
    }
}

/// Relies on pulldown-cmark's `html::push_html`: the HTML fragment it writes
/// is a function of the event sequence alone. The body only converts each
/// event back and makes that call.
#[verifier::external_body]
pub fn events_to_html(events: Vec<MdEvent>) -> (r: String)
    requires
        forall|i: int| 0 <= i < events@.len() ==> renderable_event(event_view(events@[i])),
    ensures
        r@ == html_of(events_view(events@)),
{
    let mut out = String::new();
    let mut back = Vec::new();
    for e in events {
        back.push(event_back(e));
    }
    pulldown_cmark::html::push_html(&mut out, back.into_iter());
    out
}

/// Relies on pulldown-cmark's `Parser::new_ext`: it tokenizes the input into
/// an ordered event sequence, deterministically, as a function of the input
/// text and the (fixed) option set alone. The body only makes that call and
/// converts each event to this library's event type.
#[verifier::external_body]
pub fn tokenize(input: &str) -> (r: Vec<MdEvent>)
    ensures
        r@ == md_events_of(input@),
{
    let mut options = pulldown_cmark::Options::empty();
    options.insert(pulldown_cmark::Options::ENABLE_TABLES);
    options.insert(pulldown_cmark::Options::ENABLE_STRIKETHROUGH);
    options.insert(pulldown_cmark::Options::ENABLE_TASKLISTS);
    options.insert(pulldown_cmark::Options::ENABLE_FOOTNOTES);
    let mut r = Vec::new();
    for e in pulldown_cmark::Parser::new_ext(input, options) {
        r.push(md_event_of(e));
    }
    r
}

} // verus!
