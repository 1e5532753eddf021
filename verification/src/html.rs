//! The HTML renderer: one pass over the token-event stream collects the
//! table of contents, injects heading anchors, rewrites links, and defers
//! footnote definitions to the end; an external HTML writer turns the
//! transformed stream into markup, and diagram code blocks are rewritten
//! into styled containers.

use vstd::prelude::*;

use crate::anchor::{AnchorGenerator, TocEntry, TocEntryV, anchor_step, entries_view, slug_of};
use crate::events::{
    MdEvent, MdEventV, MdTag, MdTagEnd, MdTagV, event_view, events_to_html, events_view, html_of,
    md_events_of, renderable_event, tag_view, tokenize, lemma_events_view_push,
    lemma_events_view_empty,
};
use crate::files::FileTree;
use crate::terminal::toc_min_level;
use crate::textutil::{
    char_repeat, push_repeat, push_str_chars, sat_sub, sat_sub_usize, str_chars, str_eq,
    string_from_chars,
};
use vstd::string::StringExecFns;

verus! {

/// What `html_escape::encode_text` returns: the text with the characters
/// unsafe in HTML replaced by entities, a function of the text alone.
pub uninterp spec fn encode_text_of(s: Seq<char>) -> Seq<char>;

/// Relies on `html_escape::encode_text`.
#[verifier::external_body]
fn html_encode(s: &str) -> (r: String)
    ensures
        r@ == encode_text_of(s@),
{
    html_escape::encode_text(s).into_owned()
}

/// What `html_escape::decode_html_entities` returns: the text with HTML
/// entities decoded, a function of the text alone.
pub uninterp spec fn decode_entities_of(s: Seq<char>) -> Seq<char>;

/// Relies on `html_escape::decode_html_entities`.
#[verifier::external_body]
fn html_decode(s: &str) -> (r: String)
    ensures
        r@ == decode_entities_of(s@),
{
    html_escape::decode_html_entities(s).into_owned()
}

/// What `char::is_whitespace` returns: a function of the character alone,
/// defined by the Unicode tables.
pub uninterp spec fn ws(c: char) -> bool;

/// Relies on `char::is_whitespace`.
#[verifier::external_body]
fn char_is_ws(c: char) -> (r: bool)
    ensures
        r == ws(c),
{
    c.is_whitespace()
}

/// Whether `p` occurs in `s` at position `i`.
pub open spec fn starts_with_at(s: Seq<char>, p: Seq<char>, i: int) -> bool {
    0 <= i && i + p.len() <= s.len() && s.subrange(i, i + p.len() as int) == p
}

pub open spec fn seq_starts_with(s: Seq<char>, p: Seq<char>) -> bool {
    starts_with_at(s, p, 0)
}

pub open spec fn seq_ends_with(s: Seq<char>, p: Seq<char>) -> bool {
    p.len() <= s.len() && s.subrange(s.len() - p.len(), s.len() as int) == p
}

/// Whether `p` occurs in `s` at position `i`.
fn match_at(s: &Vec<char>, i: usize, p: &Vec<char>) -> (r: bool)
    ensures
        r == starts_with_at(s@, p@, i as int),
{
    if i > s.len() || p.len() > s.len() - i {
        proof {
            assert(!starts_with_at(s@, p@, i as int));
        }
        return false;
    }
    let mut k: usize = 0;
    while k < p.len()
        invariant
            k <= p.len(),
            i + p.len() <= s.len(),
            forall|j: int| 0 <= j < k as int ==> s@[i + j] == p@[j],
        decreases p.len() - k,
    {
        if s[i + k] != p[k] {
            proof {
                assert(s@.subrange(i as int, i + p@.len() as int)[k as int] == s@[i + k]);
                assert(!starts_with_at(s@, p@, i as int));
            }
            return false;
        }
        k += 1;
    }
    proof {
        assert(s@.subrange(i as int, i + p@.len() as int) =~= p@);
    }
    true
}

/// The opening anchor tag for a link: external links open in a new tab,
/// local Markdown links go through the viewer, anything else is kept as-is;
/// an optional title attribute follows the destination.
pub open spec fn link_open_tag_s(url: Seq<char>, title: Option<Seq<char>>) -> Seq<char> {
    let ta = match title {
        Option::Some(t) => " title=\""@ + encode_text_of(t) + "\""@,
        Option::None => Seq::<char>::empty(),
    };
    if seq_starts_with(url, "http://"@) || seq_starts_with(url, "https://"@) {
        "<a href=\""@ + encode_text_of(url) + "\" target=\"_blank\" rel=\"noopener noreferrer\""@
            + ta + ">"@
    } else if seq_ends_with(url, ".md"@) {
        "<a href=\"javascript:void(0)\" onclick=\"loadFile('"@ + encode_text_of(url) + "')\""@ + ta
            + ">"@
    } else {
        "<a href=\""@ + encode_text_of(url) + "\""@ + ta + ">"@
    }
}

/// Builds the opening anchor tag for a link.
#[verifier::rlimit(50)]
fn link_open_tag(url: &String, title: &Option<String>) -> (r: String)
    ensures
        r@ == link_open_tag_s(url@, crate::ast::opt_string_view(*title)),
{
    let mut out: Vec<char> = Vec::new();
    let cs = str_chars(url.as_str());
    let http = str_chars("http://");
    let https = str_chars("https://");
    let md = str_chars(".md");
    let external = match_at(&cs, 0, &http) || match_at(&cs, 0, &https);
    let local_md = !external && cs.len() >= md.len() && match_at(&cs, cs.len() - md.len(), &md);
    proof {
        if cs@.len() >= md@.len() {
            assert(starts_with_at(cs@, md@, cs@.len() - md@.len()) == seq_ends_with(url@, ".md"@));
        } else {
            assert(!seq_ends_with(url@, ".md"@));
        }
    }
    let encoded = html_encode(url.as_str());
    if external {
        push_str_chars(&mut out, "<a href=\"");
        push_str_chars(&mut out, encoded.as_str());
        push_str_chars(&mut out, "\" target=\"_blank\" rel=\"noopener noreferrer\"");
    } else if local_md {
        push_str_chars(&mut out, "<a href=\"javascript:void(0)\" onclick=\"loadFile('");
        push_str_chars(&mut out, encoded.as_str());
        push_str_chars(&mut out, "')\"");
    } else {
        push_str_chars(&mut out, "<a href=\"");
        push_str_chars(&mut out, encoded.as_str());
        push_str_chars(&mut out, "\"");
    }
    match title {
        Option::Some(t) => {
            push_str_chars(&mut out, " title=\"");
            let te = html_encode(t.as_str());
            push_str_chars(&mut out, te.as_str());
            push_str_chars(&mut out, "\"");
        },
        Option::None => (),
    }
    push_str_chars(&mut out, ">");
    proof {
        assert(out@ =~= link_open_tag_s(url@, crate::ast::opt_string_view(*title)));
    }
    string_from_chars(&out)
}

/// The state of the transforming pass over the event stream.
pub struct HtmlPass {
    pub in_footnote: bool,
    pub in_heading: bool,
    pub level: u8,
    pub text: Seq<char>,
    pub gen: Seq<(Seq<char>, usize)>,
    pub toc: Seq<TocEntryV>,
    pub main: Seq<MdEventV>,
    pub foot: Seq<MdEventV>,
}

pub open spec fn ht_init() -> HtmlPass {
    HtmlPass {
        in_footnote: false,
        in_heading: false,
        level: 0,
        text: Seq::empty(),
        gen: Seq::empty(),
        toc: Seq::empty(),
        main: Seq::empty(),
        foot: Seq::empty(),
    }
}

/// Routes one pass-through event to the footnote stream inside a footnote
/// definition, to the main stream outside a heading, and drops it inside a
/// heading.
pub open spec fn ht_route(st: HtmlPass, e: MdEventV) -> HtmlPass {
    if st.in_footnote {
        HtmlPass { foot: st.foot.push(e), ..st }
    } else if !st.in_heading {
        HtmlPass { main: st.main.push(e), ..st }
    } else {
        st
    }
}

/// One step of the transforming pass, mirroring one event: footnote
/// definitions divert to the deferred stream; headings collect their plain
/// text, then re-emit with a generated anchor and a table-of-contents entry;
/// links outside headings become raw anchor tags; unsupported events drop.
pub open spec fn ht_step(st: HtmlPass, e: MdEventV) -> HtmlPass {
    match e {
        MdEventV::Start(MdTagV::FootnoteDefinition { .. }) => HtmlPass {
            in_footnote: true,
            foot: st.foot.push(e),
            ..st
        },
        MdEventV::End(MdTagEnd::FootnoteDefinition) => HtmlPass {
            in_footnote: false,
            foot: st.foot.push(e),
            ..st
        },
        MdEventV::Start(MdTagV::Heading { level, .. }) => HtmlPass {
            in_heading: true,
            level,
            text: Seq::empty(),
            ..st
        },
        MdEventV::End(MdTagEnd::Heading(payload)) => {
            let (anchor, gen2) = anchor_step(st.gen, slug_of(st.text));
            HtmlPass {
                in_heading: false,
                gen: gen2,
                toc: st.toc.push(TocEntryV { level: st.level, text: st.text, anchor }),
                main: st.main.push(
                    MdEventV::Start(
                        MdTagV::Heading { level: st.level, id: Option::Some(anchor) },
                    ),
                ).push(MdEventV::Text(st.text)).push(MdEventV::End(MdTagEnd::Heading(payload))),
                ..st
            }
        },
        MdEventV::Text(t) => if st.in_heading {
            HtmlPass { text: st.text + t, ..st }
        } else {
            ht_route(st, e)
        },
        MdEventV::Code(c) => if st.in_heading {
            HtmlPass { text: st.text + c, ..st }
        } else {
            ht_route(st, e)
        },
        MdEventV::Start(MdTagV::Link { url, title }) => if st.in_heading {
            st
        } else {
            let t = if title.len() == 0 {
                Option::<Seq<char>>::None
            } else {
                Option::Some(title)
            };
            ht_route(st, MdEventV::Html(link_open_tag_s(url, t)))
        },
        MdEventV::End(MdTagEnd::Link) => if st.in_heading {
            st
        } else {
            ht_route(st, MdEventV::Html("</a>"@))
        },
        MdEventV::Other => st,
        MdEventV::Start(MdTagV::Other) => st,
        MdEventV::End(MdTagEnd::Other) => st,
        _ => ht_route(st, e),
    }
}

/// The transforming pass folded over the events from `i` on.
pub open spec fn ht_scan(events: Seq<MdEventV>, i: int, st: HtmlPass) -> HtmlPass
    decreases events.len() - i,
{
    if i < 0 || i >= events.len() {
        st
    } else {
        ht_scan(events, i + 1, ht_step(st, events[i]))
    }
}

/// The table-of-contents entries as HTML list items, indented relative to
/// the smallest heading level present.
pub open spec fn toc_items_s(toc: Seq<TocEntryV>, i: int, min_level: int) -> Seq<char>
    decreases toc.len() - i,
{
    if i < 0 || i >= toc.len() {
        Seq::empty()
    } else {
        let e = toc[i];
        char_repeat(' ', 2 * sat_sub(e.level as int, min_level)) + "<li><a href=\"#"@
            + encode_text_of(e.anchor) + "\">"@ + encode_text_of(e.text) + "</a></li>\n"@
            + toc_items_s(toc, i + 1, min_level)
    }
}

/// The navigation block for the table of contents.
pub open spec fn toc_html_s(toc: Seq<TocEntryV>) -> Seq<char> {
    let min_level = if toc.len() > 0 {
        toc_min_level(toc, 0)
    } else {
        1
    };
    "<nav class=\"toc\">\n"@ + "<h2>📑 Table of Contents</h2>\n"@ + "<ul>\n"@ + toc_items_s(
        toc,
        0,
        min_level,
    ) + "</ul>\n"@ + "</nav>\n"@ + "<hr />\n"@
}

/// The position of the first `<` at or after `i`, or the text's length.
pub open spec fn find_lt(s: Seq<char>, i: int) -> int
    decreases s.len() - i,
{
    if i < 0 || i >= s.len() {
        s.len() as int
    } else if s[i] == '<' {
        i
    } else {
        find_lt(s, i + 1)
    }
}

/// The first index at or after `i` holding a character that is not
/// whitespace.
pub open spec fn skip_ws(s: Seq<char>, i: int) -> int
    decreases s.len() - i,
{
    if i < 0 || i >= s.len() {
        s.len() as int
    } else if !ws(s[i]) {
        i
    } else {
        skip_ws(s, i + 1)
    }
}

/// The end of the text with trailing whitespace dropped, scanning down from
/// `j`.
pub open spec fn rskip_ws(s: Seq<char>, j: int) -> int
    decreases j,
{
    if j <= 0 || j > s.len() {
        0
    } else if !ws(s[j - 1]) {
        j
    } else {
        rskip_ws(s, j - 1)
    }
}

/// The text with leading and trailing whitespace removed.
pub open spec fn trim_of(s: Seq<char>) -> Seq<char> {
    let a = skip_ws(s, 0);
    let b = rskip_ws(s, s.len() as int);
    if a <= b {
        s.subrange(a, b)
    } else {
        Seq::empty()
    }
}

/// Trims whitespace from both ends of a text.
fn trim_chars(v: &Vec<char>) -> (r: Vec<char>)
    ensures
        r@ == trim_of(v@),
{
    let mut a: usize = 0;
    while a < v.len() && char_is_ws(v[a])
        invariant
            a <= v.len(),
            skip_ws(v@, 0) == skip_ws(v@, a as int),
        decreases v.len() - a,
    {
        a += 1;
    }
    proof {
        assert(skip_ws(v@, a as int) == a as int);
    }
    let mut b: usize = v.len();
    while b > 0 && char_is_ws(v[b - 1])
        invariant
            b <= v.len(),
            rskip_ws(v@, v@.len() as int) == rskip_ws(v@, b as int),
        decreases b,
    {
        b -= 1;
    }
    proof {
        assert(rskip_ws(v@, b as int) == b as int);
    }
    let mut r: Vec<char> = Vec::new();
    if a < b {
        let mut k = a;
        while k < b
            invariant
                a <= k <= b <= v.len(),
                r@ == v@.subrange(a as int, k as int),
            decreases b - k,
        {
            r.push(v[k]);
            proof {
                assert(r@ =~= v@.subrange(a as int, k + 1 as int));
            }
            k += 1;
        }
    } else {
        proof {
            if a as int <= b as int {
                assert(v@.subrange(a as int, b as int) =~= Seq::<char>::empty());
            }
        }
    }
    proof {
        assert(r@ == trim_of(v@));
    }
    r
}

/// The rewritten form of one diagram code block's content: decoded, trimmed,
/// and re-encoded inside the styled container.
pub open spec fn container_of(code: Seq<char>) -> Seq<char> {
    "<div class=\"mermaid-container\">\n    <div class=\"mermaid-header\">\n        <svg viewBox=\"0 0 24 24\"><path d=\"M12 2L2 7l10 5 10-5-10-5zM2 17l10 5 10-5M2 12l10 5 10-5\"/></svg>\n        <span>Mermaid Diagram</span>\n    </div>\n    <div class=\"mermaid-body\">\n        <pre class=\"mermaid\">"@
        + encode_text_of(trim_of(decode_entities_of(code))) + "</pre>\n    </div>\n</div>"@
}

/// Whether a diagram code block begins at `i`: the opening marker, content
/// free of `<`, and the closing marker.
pub open spec fn mermaid_match_at(s: Seq<char>, i: int) -> bool {
    starts_with_at(s, "<pre><code class=\"language-mermaid\">"@, i) && starts_with_at(
        s,
        "</code></pre>"@,
        find_lt(s, i + "<pre><code class=\"language-mermaid\">"@.len() as int),
    )
}

/// The text from `i` on with every diagram code block rewritten into a
/// styled container, leftmost matches first.
pub open spec fn mermaid_rewrite_s(s: Seq<char>, i: int) -> Seq<char>
    decreases s.len() - i,
{
    if i < 0 || i >= s.len() {
        Seq::empty()
    } else if mermaid_match_at(s, i) {
        let j = find_lt(s, i + "<pre><code class=\"language-mermaid\">"@.len() as int);
        let code = s.subrange(i + "<pre><code class=\"language-mermaid\">"@.len() as int, j);
        let next = j + "</code></pre>"@.len() as int;
        container_of(code) + mermaid_rewrite_s(
            s,
            if next > i + 1 {
                next
            } else {
                i + 1
            },
        )
    } else {
        seq![s[i]] + mermaid_rewrite_s(s, i + 1)
    }
}

proof fn lemma_find_lt_bounds(s: Seq<char>, i: int)
    requires
        0 <= i <= s.len(),
    ensures
        i <= find_lt(s, i) <= s.len(),
    decreases s.len() - i,
{
    if i < s.len() && s[i] != '<' {
        lemma_find_lt_bounds(s, i + 1);
    }
}

/// Rewrites every diagram code block in an HTML fragment into a styled
/// container.
#[verifier::rlimit(50)]
fn process_mermaid(html: &String) -> (r: String)
    ensures
        r@ == mermaid_rewrite_s(html@, 0),
{
    let hv = str_chars(html.as_str());
    let mark = str_chars("<pre><code class=\"language-mermaid\">");
    let close = str_chars("</code></pre>");
    proof {
        reveal_strlit("<pre><code class=\"language-mermaid\">");
        reveal_strlit("</code></pre>");
    }
    let mut out: Vec<char> = Vec::new();
    let mut i: usize = 0;
    while i < hv.len()
        invariant
            i <= hv.len(),
            hv@ == html@,
            mark@ == "<pre><code class=\"language-mermaid\">"@,
            close@ == "</code></pre>"@,
            mark@.len() == 36,
            close@.len() == 13,
            mermaid_rewrite_s(html@, 0) == out@ + mermaid_rewrite_s(html@, i as int),
        decreases hv.len() - i,
    {
        let ghost opre = out@;
        let m = match_at(&hv, i, &mark);
        let mut matched = false;
        let mut j: usize = i;
        if m {
            j = i + mark.len();
            let ghost j0 = j as int;
            while j < hv.len() && hv[j] != '<'
                invariant
                    j0 <= j as int <= hv@.len(),
                    hv@ == html@,
                    find_lt(html@, j0) == find_lt(html@, j as int),
                decreases hv.len() - j,
            {
                j += 1;
            }
            proof {
                assert(find_lt(html@, j as int) == j as int);
            }
            matched = match_at(&hv, j, &close);
        }
        if matched {
            let code_start = i + mark.len();
            let mut code: Vec<char> = Vec::new();
            let mut k = code_start;
            while k < j
                invariant
                    code_start <= k <= j <= hv@.len(),
                    hv@ == html@,
                    code@ == html@.subrange(code_start as int, k as int),
                decreases j - k,
            {
                code.push(hv[k]);
                proof {
                    assert(code@ =~= html@.subrange(code_start as int, k + 1 as int));
                }
                k += 1;
            }
            let code_str = string_from_chars(&code);
            let decoded = html_decode(code_str.as_str());
            let decoded_chars = str_chars(decoded.as_str());
            let trimmed = trim_chars(&decoded_chars);
            let trimmed_str = string_from_chars(&trimmed);
            let encoded = html_encode(trimmed_str.as_str());
            push_str_chars(
                &mut out,
                "<div class=\"mermaid-container\">\n    <div class=\"mermaid-header\">\n        <svg viewBox=\"0 0 24 24\"><path d=\"M12 2L2 7l10 5 10-5-10-5zM2 17l10 5 10-5M2 12l10 5 10-5\"/></svg>\n        <span>Mermaid Diagram</span>\n    </div>\n    <div class=\"mermaid-body\">\n        <pre class=\"mermaid\">",
            );
            push_str_chars(&mut out, encoded.as_str());
            push_str_chars(&mut out, "</pre>\n    </div>\n</div>");
            proof {
                let piece = container_of(
                    html@.subrange(i + "<pre><code class=\"language-mermaid\">"@.len() as int, j as int),
                );
                assert(out@ =~= opre + piece);
                assert(mermaid_match_at(html@, i as int));
                assert(mermaid_rewrite_s(html@, i as int) == piece + mermaid_rewrite_s(
                    html@,
                    j + 13,
                ));
                vstd::seq_lib::lemma_concat_associative(
                    opre,
                    piece,
                    mermaid_rewrite_s(html@, j + 13),
                );
            }
            i = j + close.len();
        } else {
            out.push(hv[i]);
            proof {
                assert(!mermaid_match_at(html@, i as int));
                assert(out@ =~= opre + seq![html@[i as int]]);
                assert(mermaid_rewrite_s(html@, i as int) == seq![html@[i as int]]
                    + mermaid_rewrite_s(html@, i as int + 1));
                vstd::seq_lib::lemma_concat_associative(
                    opre,
                    seq![html@[i as int]],
                    mermaid_rewrite_s(html@, i as int + 1),
                );
            }
            i += 1;
        }
    }
    string_from_chars(&out)
}

/// The content fragment rendered from an event stream: the optional table
/// of contents, the main content, the deferred footnotes behind a separator,
/// and the diagram rewriting over the whole.
pub open spec fn content_html_s(events: Seq<MdEventV>, show_toc: bool) -> Seq<char> {
    let st = ht_scan(events, 0, ht_init());
    let body = (if show_toc && st.toc.len() > 0 {
        toc_html_s(st.toc)
    } else {
        Seq::empty()
    }) + html_of(st.main) + (if st.foot.len() > 0 {
        "<hr class=\"footnotes-separator\" />\n"@ + "<section class=\"footnotes\">\n"@ + html_of(
            st.foot,
        ) + "</section>\n"@
    } else {
        Seq::empty()
    });
    mermaid_rewrite_s(body, 0)
}

/// Every event the pass emits can be handed to the HTML writer.
pub open spec fn pass_renderable(st: HtmlPass) -> bool {
    &&& forall|i: int| 0 <= i < st.main.len() ==> renderable_event(#[trigger] st.main[i])
    &&& forall|i: int| 0 <= i < st.foot.len() ==> renderable_event(#[trigger] st.foot[i])
}

fn clone_tag(t: &MdTag) -> (r: MdTag)
    ensures
        tag_view(r) == tag_view(*t),
{
    match t {
        MdTag::Paragraph => MdTag::Paragraph,
        MdTag::Heading { level, id } => MdTag::Heading {
            level: *level,
            id: match id {
                Option::Some(s) => Option::Some(s.clone()),
                Option::None => Option::None,
            },
        },
        MdTag::BlockQuote => MdTag::BlockQuote,
        MdTag::CodeBlock { fenced, language } => MdTag::CodeBlock {
            fenced: *fenced,
            language: language.clone(),
        },
        MdTag::HtmlBlock => MdTag::HtmlBlock,
        MdTag::List { start } => MdTag::List { start: *start },
        MdTag::Item => MdTag::Item,
        MdTag::FootnoteDefinition { label } => MdTag::FootnoteDefinition { label: label.clone() },
        MdTag::Table { alignments } => MdTag::Table {
            alignments: crate::builder::copy_aligns(alignments),
        },
        MdTag::TableHead => MdTag::TableHead,
        MdTag::TableRow => MdTag::TableRow,
        MdTag::TableCell => MdTag::TableCell,
        MdTag::Emphasis => MdTag::Emphasis,
        MdTag::Strong => MdTag::Strong,
        MdTag::Strikethrough => MdTag::Strikethrough,
        MdTag::Link { url, title } => MdTag::Link { url: url.clone(), title: title.clone() },
        MdTag::Image { url, title } => MdTag::Image { url: url.clone(), title: title.clone() },
        MdTag::Other => MdTag::Other,
    }
}

fn clone_event(e: &MdEvent) -> (r: MdEvent)
    ensures
        event_view(r) == event_view(*e),
{
    match e {
        MdEvent::Start(t) => MdEvent::Start(clone_tag(t)),
        MdEvent::End(te) => MdEvent::End(*te),
        MdEvent::Text(s) => MdEvent::Text(s.clone()),
        MdEvent::Code(s) => MdEvent::Code(s.clone()),
        MdEvent::Html(s) => MdEvent::Html(s.clone()),
        MdEvent::InlineHtml(s) => MdEvent::InlineHtml(s.clone()),
        MdEvent::FootnoteReference(s) => MdEvent::FootnoteReference(s.clone()),
        MdEvent::SoftBreak => MdEvent::SoftBreak,
        MdEvent::HardBreak => MdEvent::HardBreak,
        MdEvent::Rule => MdEvent::Rule,
        MdEvent::TaskListMarker(b) => MdEvent::TaskListMarker(*b),
        MdEvent::Other => MdEvent::Other,
    }
}

/// The state the transforming pass reaches over the whole stream, computed.
struct PassOut {
    toc: Vec<TocEntry>,
    main: Vec<MdEvent>,
    foot: Vec<MdEvent>,
}

pub open spec fn pass_view(
    in_footnote: bool,
    in_heading: bool,
    level: u8,
    text: Seq<char>,
    gen: Seq<(Seq<char>, usize)>,
    toc: Seq<TocEntry>,
    main: Seq<MdEvent>,
    foot: Seq<MdEvent>,
) -> HtmlPass {
    HtmlPass {
        in_footnote,
        in_heading,
        level,
        text,
        gen,
        toc: entries_view(toc),
        main: events_view(main),
        foot: events_view(foot),
    }
}

/// Runs the transforming pass over the whole stream.
#[verifier::rlimit(100)]
fn run_pass(events: &Vec<MdEvent>) -> (r: PassOut)
    ensures
        ({
            let st = ht_scan(events_view(events@), 0, ht_init());
            &&& entries_view(r.toc@) == st.toc
            &&& events_view(r.main@) == st.main
            &&& events_view(r.foot@) == st.foot
            &&& pass_renderable(st)
        }),
{
    let ghost ev = events_view(events@);
    let mut in_footnote = false;
    let mut in_heading = false;
    let mut level: u8 = 0;
    let mut heading_text = String::new();
    let mut anchors = AnchorGenerator::new();
    let mut toc: Vec<TocEntry> = Vec::new();
    let mut main: Vec<MdEvent> = Vec::new();
    let mut foot: Vec<MdEvent> = Vec::new();
    let mut i: usize = 0;
    proof {
        crate::anchor::lemma_entries_view_empty();
        lemma_events_view_empty();
        assert(pass_view(
            false,
            false,
            0,
            heading_text@,
            anchors@,
            toc@,
            main@,
            foot@,
        ) =~= ht_init());
    }
    while i < events.len()
        invariant
            i <= events.len(),
            ev == events_view(events@),
            ht_scan(ev, 0, ht_init()) == ht_scan(
                ev,
                i as int,
                pass_view(in_footnote, in_heading, level, heading_text@, anchors@, toc@, main@, foot@),
            ),
            forall|k: int| 0 <= k < main@.len() ==> renderable_event(#[trigger] events_view(main@)[k]),
            forall|k: int| 0 <= k < foot@.len() ==> renderable_event(#[trigger] events_view(foot@)[k]),
        decreases events.len() - i,
    {
        let ghost st0 = pass_view(
            in_footnote,
            in_heading,
            level,
            heading_text@,
            anchors@,
            toc@,
            main@,
            foot@,
        );
        proof {
            assert(ht_scan(ev, i as int, st0) == ht_scan(ev, i as int + 1, ht_step(st0, ev[i as int])));
        }
        let e = &events[i];
        let route_main: bool = !in_footnote && !in_heading;
        match e {
            MdEvent::Start(MdTag::FootnoteDefinition { .. }) => {
                in_footnote = true;
                let c = clone_event(e);
                let ghost c0 = c;
                let ghost oldf = foot@;
                foot.push(c);
                proof {
                    lemma_events_view_push(oldf, c0);
                }
            },
            MdEvent::End(MdTagEnd::FootnoteDefinition) => {
                let c = clone_event(e);
                let ghost c0 = c;
                let ghost oldf = foot@;
                foot.push(c);
                in_footnote = false;
                proof {
                    lemma_events_view_push(oldf, c0);
                }
            },
            MdEvent::Start(MdTag::Heading { level: lv, .. }) => {
                in_heading = true;
                level = *lv;
                heading_text = String::new();
            },
            MdEvent::End(MdTagEnd::Heading(payload)) => {
                let payload = *payload;
                in_heading = false;
                let anchor = anchors.generate(heading_text.as_str());
                let entry = TocEntry {
                    level,
                    text: heading_text.clone(),
                    anchor: anchor.clone(),
                };
                let ghost e0 = entry;
                let ghost oldtoc = toc@;
                toc.push(entry);
                let ghost oldmain = main@;
                let start_ev = MdEvent::Start(
                    MdTag::Heading { level, id: Option::Some(anchor) },
                );
                let ghost sv = start_ev;
                main.push(start_ev);
                let text_ev = MdEvent::Text(heading_text.clone());
                let ghost tv = text_ev;
                main.push(text_ev);
                main.push(MdEvent::End(MdTagEnd::Heading(payload)));
                proof {
                    crate::anchor::lemma_entries_view_push(oldtoc, e0);
                    lemma_events_view_push(oldmain, sv);
                    lemma_events_view_push(oldmain.push(sv), tv);
                    lemma_events_view_push(
                        oldmain.push(sv).push(tv),
                        MdEvent::End(MdTagEnd::Heading(payload)),
                    );
                }
            },
            MdEvent::Text(t) => {
                if in_heading {
                    heading_text.append(t.as_str());
                } else if in_footnote {
                    let c = clone_event(e);
                    let ghost c0 = c;
                    let ghost oldf = foot@;
                    foot.push(c);
                    proof {
                        lemma_events_view_push(oldf, c0);
                    }
                } else {
                    let c = clone_event(e);
                    let ghost c0 = c;
                    let ghost oldm = main@;
                    main.push(c);
                    proof {
                        lemma_events_view_push(oldm, c0);
                    }
                }
            },
            MdEvent::Code(c) => {
                if in_heading {
                    heading_text.append(c.as_str());
                } else if in_footnote {
                    let c = clone_event(e);
                    let ghost c0 = c;
                    let ghost oldf = foot@;
                    foot.push(c);
                    proof {
                        lemma_events_view_push(oldf, c0);
                    }
                } else {
                    let c = clone_event(e);
                    let ghost c0 = c;
                    let ghost oldm = main@;
                    main.push(c);
                    proof {
                        lemma_events_view_push(oldm, c0);
                    }
                }
            },
            MdEvent::Start(MdTag::Link { url, title }) => {
                if !in_heading {
                    let t = if title.as_str().is_empty() {
                        Option::None
                    } else {
                        Option::Some(title.clone())
                    };
                    let tag = link_open_tag(url, &t);
                    let html_ev = MdEvent::Html(tag);
                    let ghost hv = html_ev;
                    if in_footnote {
                        let ghost oldf = foot@;
                        foot.push(html_ev);
                        proof {
                            lemma_events_view_push(oldf, hv);
                        }
                    } else {
                        let ghost oldm = main@;
                        main.push(html_ev);
                        proof {
                            lemma_events_view_push(oldm, hv);
                        }
                    }
                }
            },
            MdEvent::End(MdTagEnd::Link) => {
                if !in_heading {
                    let mut closing: Vec<char> = Vec::new();
                    push_str_chars(&mut closing, "</a>");
                    let html_ev = MdEvent::Html(string_from_chars(&closing));
                    let ghost hv = html_ev;
                    proof {
                        assert(closing@ =~= Seq::<char>::empty() + "</a>"@);
                    }
                    if in_footnote {
                        let ghost oldf = foot@;
                        foot.push(html_ev);
                        proof {
                            lemma_events_view_push(oldf, hv);
                        }
                    } else {
                        let ghost oldm = main@;
                        main.push(html_ev);
                        proof {
                            lemma_events_view_push(oldm, hv);
                        }
                    }
                }
            },
            MdEvent::Other => (),
            MdEvent::Start(MdTag::Other) => (),
            MdEvent::End(MdTagEnd::Other) => (),
            other => {
                if in_footnote {
                    let c = clone_event(other);
                    let ghost c0 = c;
                    let ghost oldf = foot@;
                    foot.push(c);
                    proof {
                        lemma_events_view_push(oldf, c0);
                    }
                } else if !in_heading {
                    let c = clone_event(other);
                    let ghost c0 = c;
                    let ghost oldm = main@;
                    main.push(c);
                    proof {
                        lemma_events_view_push(oldm, c0);
                    }
                }
            },
        }
        proof {
            assert(pass_view(
                in_footnote,
                in_heading,
                level,
                heading_text@,
                anchors@,
                toc@,
                main@,
                foot@,
            ) =~= ht_step(st0, ev[i as int]));
        }
        i += 1;
    }
    PassOut { toc, main, foot }
}

/// Builds the table-of-contents navigation block.
#[verifier::rlimit(50)]
fn build_toc_html(out: &mut Vec<char>, toc: &Vec<TocEntry>)
    requires
        toc@.len() > 0,
    ensures
        final(out)@ == old(out)@ + toc_html_s(entries_view(toc@)),
{
    let ghost tv = entries_view(toc@);
    push_str_chars(out, "<nav class=\"toc\">\n");
    push_str_chars(out, "<h2>📑 Table of Contents</h2>\n");
    push_str_chars(out, "<ul>\n");
    let mut min_level: u8 = 255;
    let mut k: usize = 0;
    while k < toc.len()
        invariant
            k <= toc.len(),
            tv == entries_view(toc@),
            crate::textutil::min_int(min_level as int, toc_min_level(tv, k as int))
                == toc_min_level(tv, 0),
        decreases toc.len() - k,
    {
        if toc[k].level < min_level {
            min_level = toc[k].level;
        }
        k += 1;
    }
    proof {
        assert(toc_min_level(tv, tv.len() as int) == 255);
        assert(min_level as int == toc_min_level(tv, 0));
    }
    let ghost items0 = out@;
    let mut i: usize = 0;
    while i < toc.len()
        invariant
            i <= toc.len(),
            tv == entries_view(toc@),
            min_level as int == toc_min_level(tv, 0),
            items0 + toc_items_s(tv, 0, min_level as int) == out@ + toc_items_s(
                tv,
                i as int,
                min_level as int,
            ),
        decreases toc.len() - i,
    {
        let ghost opre = out@;
        let e = &toc[i];
        let rel = sat_sub_usize(e.level as usize, min_level as usize);
        push_repeat(out, ' ', 2 * rel);
        push_str_chars(out, "<li><a href=\"#");
        let ea = html_encode(e.anchor.as_str());
        push_str_chars(out, ea.as_str());
        push_str_chars(out, "\">");
        let et = html_encode(e.text.as_str());
        push_str_chars(out, et.as_str());
        push_str_chars(out, "</a></li>\n");
        proof {
            let piece = char_repeat(' ', 2 * sat_sub(tv[i as int].level as int, min_level as int))
                + "<li><a href=\"#"@ + encode_text_of(tv[i as int].anchor) + "\">"@
                + encode_text_of(tv[i as int].text) + "</a></li>\n"@;
            assert(2 * rel as int == 2 * sat_sub(tv[i as int].level as int, min_level as int));
            assert(out@ =~= opre + piece);
            assert(toc_items_s(tv, i as int, min_level as int) == piece + toc_items_s(
                tv,
                i as int + 1,
                min_level as int,
            ));
            vstd::seq_lib::lemma_concat_associative(
                opre,
                piece,
                toc_items_s(tv, i as int + 1, min_level as int),
            );
        }
        i += 1;
    }
    push_str_chars(out, "</ul>\n");
    push_str_chars(out, "</nav>\n");
    push_str_chars(out, "<hr />\n");
    proof {
        assert(out@ =~= old(out)@ + toc_html_s(tv));
    }
}

/// A full HTML page around a content fragment.
pub open spec fn page_s(title: Seq<char>, content: Seq<char>) -> Seq<char> {
    "<!DOCTYPE html>\n<html>\n<head>\n<meta charset=\"utf-8\">\n<title>"@ + title
        + "</title>\n<link rel=\"stylesheet\" href=\"/assets/github.css\">\n</head>\n<body>\n<main class=\"markdown-body\">\n"@
        + content + "</main>\n</body>\n</html>\n"@
}

/// One sidebar entry for a file: a link that loads the file in the viewer,
/// marked active when it is the currently shown one.
pub open spec fn sidebar_item_s(f: crate::files::MarkdownFileV, current: Option<Seq<char>>) -> Seq<
    char,
> {
    "<a href=\"javascript:void(0)\" class=\"sidebar-item"@ + (if current == Option::Some(
        f.relative_path,
    ) {
        " active"@
    } else {
        Seq::<char>::empty()
    }) + "\" data-path=\""@ + encode_text_of(f.relative_path) + "\" onclick=\"loadFile('"@
        + encode_text_of(f.relative_path) + "')\"><span class=\"sidebar-item-name\">"@
        + encode_text_of(f.name) + "</span></a>\n"@
}

/// The sidebar: one entry per file of the tree, in the tree's display order.
pub open spec fn sidebar_s(files: Seq<crate::files::MarkdownFile>, i: int, current: Option<Seq<char>>) -> Seq<char>
    decreases files.len() - i,
{
    if i < 0 || i >= files.len() {
        Seq::empty()
    } else {
        sidebar_item_s(files[i]@, current) + sidebar_s(files, i + 1, current)
    }
}

/// A full HTML page with a navigation sidebar around a content fragment.
pub open spec fn sidebar_page_s(title: Seq<char>, sidebar: Seq<char>, content: Seq<char>) -> Seq<
    char,
> {
    "<!DOCTYPE html>\n<html>\n<head>\n<meta charset=\"utf-8\">\n<title>"@ + title
        + "</title>\n<link rel=\"stylesheet\" href=\"/assets/github.css\">\n</head>\n<body>\n<nav class=\"sidebar\">\n"@
        + sidebar + "</nav>\n<main class=\"markdown-body\">\n"@ + content
        + "</main>\n</body>\n</html>\n"@
}

/// Renders Markdown into full HTML pages, with an optional table of contents
/// and an optional navigation sidebar.
pub struct HtmlRenderer {
    title: String,
    show_toc: bool,
}

impl HtmlRenderer {
    /// The page title the renderer was built with.
    pub closed spec fn title_view(&self) -> Seq<char> {
        self.title@
    }

    /// Whether a table of contents is rendered.
    pub closed spec fn toc_enabled(&self) -> bool {
        self.show_toc
    }

    /// A renderer with the given page title and no table of contents.
    pub fn new(title: &str) -> (r: HtmlRenderer)
        ensures
            r.title_view() == title@,
            !r.toc_enabled(),
    {
        HtmlRenderer { title: title.to_owned(), show_toc: false }
    }

    /// The same renderer with the table of contents switched on or off.
    pub fn with_toc(self, show_toc: bool) -> (r: HtmlRenderer)
        ensures
            r.title_view() == self.title_view(),
            r.toc_enabled() == show_toc,
    {
        HtmlRenderer { title: self.title, show_toc }
    }

    /// Renders only the content fragment (for asynchronous loading).
    pub fn render_content(&self, markdown: &str) -> (r: String)
        ensures
            r@ == content_html_s(events_view(md_events_of(markdown@)), self.toc_enabled()),
    {
        let events = tokenize(markdown);
        let pass = run_pass(&events);
        let mut body: Vec<char> = Vec::new();
        if self.show_toc && pass.toc.len() > 0 {
            build_toc_html(&mut body, &pass.toc);
        }
        proof {
            let st = ht_scan(events_view(events@), 0, ht_init());
            assert(body@ =~= Seq::<char>::empty() + (if self.show_toc && st.toc.len() > 0 {
                toc_html_s(st.toc)
            } else {
                Seq::<char>::empty()
            }));
        }
        proof {
            assert forall|k: int| 0 <= k < pass.main@.len() implies renderable_event(
                event_view(pass.main@[k]),
            ) by {
                assert(events_view(pass.main@)[k] == event_view(pass.main@[k]));
            }
            assert forall|k: int| 0 <= k < pass.foot@.len() implies renderable_event(
                event_view(pass.foot@[k]),
            ) by {
                assert(events_view(pass.foot@)[k] == event_view(pass.foot@[k]));
            }
        }
        let main_html = events_to_html(pass.main);
        push_str_chars(&mut body, main_html.as_str());
        if pass.foot.len() > 0 {
            push_str_chars(&mut body, "<hr class=\"footnotes-separator\" />\n");
            push_str_chars(&mut body, "<section class=\"footnotes\">\n");
            let foot_html = events_to_html(pass.foot);
            push_str_chars(&mut body, foot_html.as_str());
            push_str_chars(&mut body, "</section>\n");
        }
        proof {
            let st = ht_scan(events_view(events@), 0, ht_init());
            assert(st.foot.len() == 0 ==> body@ =~= (if self.show_toc && st.toc.len() > 0 {
                toc_html_s(st.toc)
            } else {
                Seq::<char>::empty()
            }) + html_of(st.main) + Seq::<char>::empty());
            assert(st.foot.len() > 0 ==> body@ =~= (if self.show_toc && st.toc.len() > 0 {
                toc_html_s(st.toc)
            } else {
                Seq::<char>::empty()
            }) + html_of(st.main) + ("<hr class=\"footnotes-separator\" />\n"@
                + "<section class=\"footnotes\">\n"@ + html_of(st.foot) + "</section>\n"@));
        }
        let body_str = string_from_chars(&body);
        process_mermaid(&body_str)
    }

    /// Renders a full HTML page (single file mode).
    pub fn render(&self, markdown: &str) -> (r: String)
        ensures
            r@ == page_s(
                self.title_view(),
                content_html_s(events_view(md_events_of(markdown@)), self.toc_enabled()),
            ),
    {
        let content = self.render_content(markdown);
        let mut out: Vec<char> = Vec::new();
        push_str_chars(&mut out, "<!DOCTYPE html>\n<html>\n<head>\n<meta charset=\"utf-8\">\n<title>");
        push_str_chars(&mut out, self.title.as_str());
        push_str_chars(
            &mut out,
            "</title>\n<link rel=\"stylesheet\" href=\"/assets/github.css\">\n</head>\n<body>\n<main class=\"markdown-body\">\n",
        );
        push_str_chars(&mut out, content.as_str());
        push_str_chars(&mut out, "</main>\n</body>\n</html>\n");
        proof {
            assert(out@ =~= page_s(
                self.title_view(),
                content_html_s(events_view(md_events_of(markdown@)), self.toc_enabled()),
            ));
        }
        string_from_chars(&out)
    }

    /// Renders a full HTML page with the navigation sidebar (directory mode).
    pub fn render_with_sidebar(
        &self,
        markdown: &str,
        file_tree: &FileTree,
        current_file: Option<&str>,
    ) -> (r: String)
        ensures
            r@ == sidebar_page_s(
                self.title_view(),
                sidebar_s(
                    file_tree.files@,
                    0,
                    match current_file {
                        Option::Some(c) => Option::Some(c@),
                        Option::None => Option::None,
                    },
                ),
                content_html_s(events_view(md_events_of(markdown@)), self.toc_enabled()),
            ),
    {
        let ghost cur: Option<Seq<char>> = match current_file {
            Option::Some(c) => Option::Some(c@),
            Option::None => Option::None,
        };
        let content = self.render_content(markdown);
        let mut sidebar: Vec<char> = Vec::new();
        let mut i: usize = 0;
        while i < file_tree.files.len()
            invariant
                i <= file_tree.files@.len(),
                cur == (match current_file {
                    Option::Some(c) => Option::Some(c@),
                    Option::None => Option::None,
                }),
                Seq::<char>::empty() + sidebar_s(file_tree.files@, 0, cur) == sidebar@
                    + sidebar_s(file_tree.files@, i as int, cur),
            decreases file_tree.files@.len() - i,
        {
            let ghost opre = sidebar@;
            let f = &file_tree.files[i];
            push_str_chars(&mut sidebar, "<a href=\"javascript:void(0)\" class=\"sidebar-item");
            let is_current = match current_file {
                Option::Some(c) => str_eq(c, f.relative_path.as_str()),
                Option::None => false,
            };
            if is_current {
                push_str_chars(&mut sidebar, " active");
            }
            push_str_chars(&mut sidebar, "\" data-path=\"");
            let ep = html_encode(f.relative_path.as_str());
            push_str_chars(&mut sidebar, ep.as_str());
            push_str_chars(&mut sidebar, "\" onclick=\"loadFile('");
            push_str_chars(&mut sidebar, ep.as_str());
            push_str_chars(&mut sidebar, "')\"><span class=\"sidebar-item-name\">");
            let en = html_encode(f.name.as_str());
            push_str_chars(&mut sidebar, en.as_str());
            push_str_chars(&mut sidebar, "</span></a>\n");
            proof {
                let piece = sidebar_item_s(file_tree.files@[i as int]@, cur);
                assert(sidebar@ =~= opre + piece);
                assert(sidebar_s(file_tree.files@, i as int, cur) == piece + sidebar_s(
                    file_tree.files@,
                    i as int + 1,
                    cur,
                ));
                vstd::seq_lib::lemma_concat_associative(
                    opre,
                    piece,
                    sidebar_s(file_tree.files@, i as int + 1, cur),
                );
            }
            i += 1;
        }
        let mut out: Vec<char> = Vec::new();
        push_str_chars(&mut out, "<!DOCTYPE html>\n<html>\n<head>\n<meta charset=\"utf-8\">\n<title>");
        push_str_chars(&mut out, self.title.as_str());
        push_str_chars(
            &mut out,
            "</title>\n<link rel=\"stylesheet\" href=\"/assets/github.css\">\n</head>\n<body>\n<nav class=\"sidebar\">\n",
        );
        let sidebar_str = string_from_chars(&sidebar);
        push_str_chars(&mut out, sidebar_str.as_str());
        push_str_chars(&mut out, "</nav>\n<main class=\"markdown-body\">\n");
        push_str_chars(&mut out, content.as_str());
        push_str_chars(&mut out, "</main>\n</body>\n</html>\n");
        proof {
            assert(sidebar@ == sidebar_s(file_tree.files@, 0, cur));
            assert(out@ =~= sidebar_page_s(
                self.title_view(),
                sidebar_s(file_tree.files@, 0, cur),
                content_html_s(events_view(md_events_of(markdown@)), self.toc_enabled()),
            ));
        }
        string_from_chars(&out)
    }

    /// The stylesheet served for rendered pages.
    pub fn get_css() -> (r: &'static str)
        ensures
            r@ == ".markdown-body{font-family:sans-serif;max-width:56rem;margin:0 auto;padding:2rem;}\npre{background:#f6f8fa;padding:1rem;overflow:auto;}\ncode{font-family:monospace;}\nblockquote{color:#57606a;border-left:.25em solid #d0d7de;padding-left:1em;}\n.sidebar{position:fixed;left:0;top:0;bottom:0;width:16rem;overflow:auto;border-right:1px solid #d0d7de;padding:1rem;}\n.sidebar-item.active{font-weight:bold;}\n.mermaid-container{border:1px solid #d0d7de;border-radius:6px;}\n.mermaid-header{padding:.5rem;border-bottom:1px solid #d0d7de;}\n"@,
    {
        ".markdown-body{font-family:sans-serif;max-width:56rem;margin:0 auto;padding:2rem;}\npre{background:#f6f8fa;padding:1rem;overflow:auto;}\ncode{font-family:monospace;}\nblockquote{color:#57606a;border-left:.25em solid #d0d7de;padding-left:1em;}\n.sidebar{position:fixed;left:0;top:0;bottom:0;width:16rem;overflow:auto;border-right:1px solid #d0d7de;padding:1rem;}\n.sidebar-item.active{font-weight:bold;}\n.mermaid-container{border:1px solid #d0d7de;border-radius:6px;}\n.mermaid-header{padding:.5rem;border-bottom:1px solid #d0d7de;}\n"
    }
}

} // verus!
