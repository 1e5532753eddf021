//! The document model: block-level elements, inline elements, and their
//! mathematical views (`Seq`-based mirrors used by contracts).

use vstd::prelude::*;

verus! {

/// Per-column table alignment.
#[derive(Debug, Clone, Copy, PartialEq, Eq, Structural)]
pub enum Alignment {
    Unspecified,
    Left,
    Center,
    Right,
}

/// A text-level formatting unit inside a block.
#[derive(Debug)]
pub enum InlineElement {
    Text(String),
    Code(String),
    Strong(Vec<InlineElement>),
    Emphasis(Vec<InlineElement>),
    Strikethrough(Vec<InlineElement>),
    Link { url: String, content: Vec<InlineElement>, title: Option<String> },
    Image { url: String, alt: String, title: Option<String> },
    FootnoteReference(String),
    /// Task list checkbox (true = checked).
    TaskListMarker(bool),
    /// Inline HTML such as `<br>`.
    InlineHtml(String),
    SoftBreak,
    HardBreak,
}

/// A list item: zero or more block elements (paragraphs, code blocks,
/// nested lists, ...).
#[derive(Debug)]
pub struct ListItem {
    pub content: Vec<Element>,
}

/// A block-level element of the document.
#[derive(Debug)]
pub enum Element {
    Heading { level: u8, content: String },
    Paragraph { content: Vec<InlineElement> },
    CodeBlock { language: Option<String>, content: String },
    List { ordered: bool, start: Option<u64>, items: Vec<ListItem> },
    Table { headers: Vec<String>, alignments: Vec<Alignment>, rows: Vec<Vec<String>> },
    BlockQuote { content: Vec<Element> },
    HorizontalRule,
    Image { url: String, alt: String, title: Option<String> },
    FootnoteDefinition { label: String, content: Vec<Element> },
    /// Raw HTML block.
    Html(String),
}

/// A parsed Markdown document.
#[derive(Debug)]
pub struct Document {
    pub elements: Vec<Element>,
}

/// Mathematical mirror of `InlineElement`, over `Seq`.
pub enum InlineV {
    Text(Seq<char>),
    Code(Seq<char>),
    Strong(Seq<InlineV>),
    Emphasis(Seq<InlineV>),
    Strikethrough(Seq<InlineV>),
    Link { url: Seq<char>, content: Seq<InlineV>, title: Option<Seq<char>> },
    Image { url: Seq<char>, alt: Seq<char>, title: Option<Seq<char>> },
    FootnoteReference(Seq<char>),
    TaskListMarker(bool),
    InlineHtml(Seq<char>),
    SoftBreak,
    HardBreak,
}

/// Mathematical mirror of `ListItem`.
pub struct ListItemV {
    pub content: Seq<ElementV>,
}

/// Mathematical mirror of `Element`.
pub enum ElementV {
    Heading { level: u8, content: Seq<char> },
    Paragraph { content: Seq<InlineV> },
    CodeBlock { language: Option<Seq<char>>, content: Seq<char> },
    List { ordered: bool, start: Option<u64>, items: Seq<ListItemV> },
    Table { headers: Seq<Seq<char>>, alignments: Seq<Alignment>, rows: Seq<Seq<Seq<char>>> },
    BlockQuote { content: Seq<ElementV> },
    HorizontalRule,
    Image { url: Seq<char>, alt: Seq<char>, title: Option<Seq<char>> },
    FootnoteDefinition { label: Seq<char>, content: Seq<ElementV> },
    Html(Seq<char>),
}

/// Mathematical mirror of `Document`.
pub struct DocumentV {
    pub elements: Seq<ElementV>,
}

pub open spec fn opt_string_view(o: Option<String>) -> Option<Seq<char>> {
    match o {
        Option::Some(s) => Option::Some(s@),
        Option::None => Option::None,
    }
}

pub open spec fn inline_view(e: InlineElement) -> InlineV
    decreases e,
{
    match e {
        InlineElement::Text(s) => InlineV::Text(s@),
        InlineElement::Code(s) => InlineV::Code(s@),
        InlineElement::Strong(c) => InlineV::Strong(inlines_view(c@)),
        InlineElement::Emphasis(c) => InlineV::Emphasis(inlines_view(c@)),
        InlineElement::Strikethrough(c) => InlineV::Strikethrough(inlines_view(c@)),
        InlineElement::Link { url, content, title } => InlineV::Link {
            url: url@,
            content: inlines_view(content@),
            title: opt_string_view(title),
        },
        InlineElement::Image { url, alt, title } => InlineV::Image {
            url: url@,
            alt: alt@,
            title: opt_string_view(title),
        },
        InlineElement::FootnoteReference(s) => InlineV::FootnoteReference(s@),
        InlineElement::TaskListMarker(b) => InlineV::TaskListMarker(b),
        InlineElement::InlineHtml(s) => InlineV::InlineHtml(s@),
        InlineElement::SoftBreak => InlineV::SoftBreak,
        InlineElement::HardBreak => InlineV::HardBreak,
    }
}

// In the sequence views below, the range guard in each closure is there for
// the termination checker: `Seq::new` only applies the closure in range, but
// the closure by itself must be total.
pub open spec fn inlines_view(s: Seq<InlineElement>) -> Seq<InlineV>
    decreases s,
{
    Seq::new(
        s.len(),
        |i: int|
            if 0 <= i < s.len() {
                inline_view(s[i])
            } else {
                InlineV::SoftBreak
            },
    )
}

pub open spec fn strings_view(s: Seq<String>) -> Seq<Seq<char>> {
    Seq::new(s.len(), |i: int| s[i]@)
}

pub open spec fn rows_view(s: Seq<Vec<String>>) -> Seq<Seq<Seq<char>>> {
    Seq::new(s.len(), |i: int| strings_view(s[i]@))
}

pub open spec fn elem_view(e: Element) -> ElementV
    decreases e,
{
    match e {
        Element::Heading { level, content } => ElementV::Heading { level, content: content@ },
        Element::Paragraph { content } => ElementV::Paragraph { content: inlines_view(content@) },
        Element::CodeBlock { language, content } => ElementV::CodeBlock {
            language: opt_string_view(language),
            content: content@,
        },
        Element::List { ordered, start, items } => ElementV::List {
            ordered,
            start,
            items: items_view(items@),
        },
        Element::Table { headers, alignments, rows } => ElementV::Table {
            headers: strings_view(headers@),
            alignments: alignments@,
            rows: rows_view(rows@),
        },
        Element::BlockQuote { content } => ElementV::BlockQuote { content: elems_view(content@) },
        Element::HorizontalRule => ElementV::HorizontalRule,
        Element::Image { url, alt, title } => ElementV::Image {
            url: url@,
            alt: alt@,
            title: opt_string_view(title),
        },
        Element::FootnoteDefinition { label, content } => ElementV::FootnoteDefinition {
            label: label@,
            content: elems_view(content@),
        },
        Element::Html(s) => ElementV::Html(s@),
    }
}

pub open spec fn elems_view(s: Seq<Element>) -> Seq<ElementV>
    decreases s,
{
    Seq::new(
        s.len(),
        |i: int|
            if 0 <= i < s.len() {
                elem_view(s[i])
            } else {
                ElementV::HorizontalRule
            },
    )
}

pub open spec fn item_view(it: ListItem) -> ListItemV
    decreases it,
{
    ListItemV { content: elems_view(it.content@) }
}

pub open spec fn items_view(s: Seq<ListItem>) -> Seq<ListItemV>
    decreases s,
{
    Seq::new(
        s.len(),
        |i: int|
            if 0 <= i < s.len() {
                item_view(s[i])
            } else {
                ListItemV { content: Seq::empty() }
            },
    )
}

pub proof fn lemma_inlines_view_empty()
    ensures
        inlines_view(Seq::empty()) == Seq::<InlineV>::empty(),
{
    assert(inlines_view(Seq::empty()) =~= Seq::<InlineV>::empty());
}

pub proof fn lemma_inlines_view_push(s: Seq<InlineElement>, x: InlineElement)
    ensures
        inlines_view(s.push(x)) == inlines_view(s).push(inline_view(x)),
{
    assert(inlines_view(s.push(x)) =~= inlines_view(s).push(inline_view(x)));
}

pub proof fn lemma_elems_view_empty()
    ensures
        elems_view(Seq::empty()) == Seq::<ElementV>::empty(),
{
    assert(elems_view(Seq::empty()) =~= Seq::<ElementV>::empty());
}

pub proof fn lemma_elems_view_push(s: Seq<Element>, x: Element)
    ensures
        elems_view(s.push(x)) == elems_view(s).push(elem_view(x)),
{
    assert(elems_view(s.push(x)) =~= elems_view(s).push(elem_view(x)));
}

pub proof fn lemma_items_view_empty()
    ensures
        items_view(Seq::empty()) == Seq::<ListItemV>::empty(),
{
    assert(items_view(Seq::empty()) =~= Seq::<ListItemV>::empty());
}

pub proof fn lemma_items_view_push(s: Seq<ListItem>, x: ListItem)
    ensures
        items_view(s.push(x)) == items_view(s).push(item_view(x)),
{
    assert(items_view(s.push(x)) =~= items_view(s).push(item_view(x)));
}

pub proof fn lemma_strings_view_empty()
    ensures
        strings_view(Seq::empty()) == Seq::<Seq<char>>::empty(),
{
    assert(strings_view(Seq::empty()) =~= Seq::<Seq<char>>::empty());
}

pub proof fn lemma_strings_view_push(s: Seq<String>, x: String)
    ensures
        strings_view(s.push(x)) == strings_view(s).push(x@),
{
    assert(strings_view(s.push(x)) =~= strings_view(s).push(x@));
}

pub proof fn lemma_rows_view_empty()
    ensures
        rows_view(Seq::empty()) == Seq::<Seq<Seq<char>>>::empty(),
{
    assert(rows_view(Seq::empty()) =~= Seq::<Seq<Seq<char>>>::empty());
}

pub proof fn lemma_rows_view_push(s: Seq<Vec<String>>, x: Vec<String>)
    ensures
        rows_view(s.push(x)) == rows_view(s).push(strings_view(x@)),
{
    assert(rows_view(s.push(x)) =~= rows_view(s).push(strings_view(x@)));
}

impl View for InlineElement {
    type V = InlineV;

    open spec fn view(&self) -> InlineV {
        inline_view(*self)
    }
}

impl View for Element {
    type V = ElementV;

    open spec fn view(&self) -> ElementV {
        elem_view(*self)
    }
}

impl View for ListItem {
    type V = ListItemV;

    open spec fn view(&self) -> ListItemV {
        item_view(*self)
    }
}

impl View for Document {
    type V = DocumentV;

    open spec fn view(&self) -> DocumentV {
        DocumentV { elements: elems_view(self.elements@) }
    }
}

} // verus!
