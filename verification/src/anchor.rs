//! Anchor and table-of-contents generation: URL-safe slugs derived from
//! heading text, with stateful de-duplication, and the ordered table of
//! contents of a document's top-level headings.

use vstd::prelude::*;

use crate::ast::{DocumentV, Element, ElementV, elems_view};
use crate::textutil::{dec_str, dec_string, str_chars, string_from_chars};
use vstd::string::StringExecFns;

verus! {

/// What `char::is_alphanumeric` returns for a character: a function of the
/// character alone, defined by the Unicode tables.
pub uninterp spec fn alnum(c: char) -> bool;

/// Relies on `char::is_alphanumeric`.
#[verifier::external_body]
fn char_is_alphanumeric(c: char) -> (r: bool)
    ensures
        r == alnum(c),
{
    c.is_alphanumeric()
}

/// What `str::to_lowercase` returns for a string: a function of the
/// characters alone, defined by the Unicode tables.
pub uninterp spec fn lower_of(s: Seq<char>) -> Seq<char>;

/// Relies on `str::to_lowercase`.
#[verifier::external_body]
pub(crate) fn lowercase(s: &str) -> (r: String)
    ensures
        r@ == lower_of(s@),
{
    s.to_lowercase()
}

/// A slug keeps alphanumeric characters, spaces and hyphens; every other
/// character becomes a space.
pub open spec fn slug_map(c: char) -> char {
    if alnum(c) || c == ' ' || c == '-' {
        c
    } else {
        ' '
    }
}

/// Folds the mapped characters into a slug: runs of spaces collapse, and the
/// remaining words are joined with single hyphens. `pending` records that a
/// word boundary was seen after at least one emitted character.
pub open spec fn slug_fold(s: Seq<char>, i: int, acc: Seq<char>, pending: bool) -> Seq<char>
    decreases s.len() - i,
{
    if i < 0 || i >= s.len() {
        acc
    } else {
        let c = slug_map(s[i]);
        if c == ' ' {
            slug_fold(s, i + 1, acc, acc.len() > 0)
        } else {
            let acc2 = if pending {
                acc + seq!['-', c]
            } else {
                acc.push(c)
            };
            slug_fold(s, i + 1, acc2, false)
        }
    }
}

/// The slug of a heading text: lowercase, map every character that is not
/// alphanumeric, space or hyphen to a space, collapse whitespace, and join
/// the remaining words with hyphens.
pub open spec fn slug_of(s: Seq<char>) -> Seq<char> {
    slug_fold(lower_of(s), 0, Seq::empty(), false)
}

/// Generates an anchor slug from heading text.
pub fn generate_anchor(text: &str) -> (r: String)
    ensures
        r@ == slug_of(text@),
{
    let lowered = lowercase(text);
    let cs = str_chars(lowered.as_str());
    let mut out: Vec<char> = Vec::new();
    let mut pending = false;
    let mut i: usize = 0;
    while i < cs.len()
        invariant
            i <= cs.len(),
            slug_of(text@) == slug_fold(cs@, i as int, out@, pending),
        decreases cs.len() - i,
    {
        let c = cs[i];
        let keep = char_is_alphanumeric(c) || c == ' ' || c == '-';
        let d = if keep {
            c
        } else {
            ' '
        };
        if d == ' ' {
            pending = out.len() > 0;
        } else {
            let ghost oldout = out@;
            if pending {
                out.push('-');
            }
            out.push(d);
            proof {
                if pending {
                    assert(out@ =~= oldout + seq!['-', d]);
                }
            }
            pending = false;
        }
        i += 1;
    }
    string_from_chars(&out)
}

/// An entry of the table of contents.
#[derive(Debug, Clone)]
pub struct TocEntry {
    pub level: u8,
    pub text: String,
    pub anchor: String,
}

/// Mathematical mirror of `TocEntry`.
pub struct TocEntryV {
    pub level: u8,
    pub text: Seq<char>,
    pub anchor: Seq<char>,
}

impl View for TocEntry {
    type V = TocEntryV;

    open spec fn view(&self) -> TocEntryV {
        TocEntryV { level: self.level, text: self.text@, anchor: self.anchor@ }
    }
}

pub open spec fn entries_view(s: Seq<TocEntry>) -> Seq<TocEntryV> {
    Seq::new(s.len(), |i: int| s[i]@)
}

pub proof fn lemma_entries_view_empty()
    ensures
        entries_view(Seq::empty()) == Seq::<TocEntryV>::empty(),
{
    assert(entries_view(Seq::empty()) =~= Seq::<TocEntryV>::empty());
}

pub proof fn lemma_entries_view_push(s: Seq<TocEntry>, x: TocEntry)
    ensures
        entries_view(s.push(x)) == entries_view(s).push(x@),
{
    assert(entries_view(s.push(x)) =~= entries_view(s).push(x@));
}

/// The per-slug counter saturates at the machine's integer limit.
pub open spec fn sat_inc(n: usize) -> usize {
    if n < usize::MAX {
        (n + 1) as usize
    } else {
        n
    }
}

/// The first index holding the given base slug, or -1.
pub open spec fn count_idx(m: Seq<(Seq<char>, usize)>, k: Seq<char>) -> int
    decreases m.len(),
{
    if m.len() == 0 {
        -1
    } else if m[0].0 == k {
        0
    } else {
        let r = count_idx(m.drop_first(), k);
        if r == -1 {
            -1
        } else {
            r + 1
        }
    }
}

pub proof fn lemma_count_idx(m: Seq<(Seq<char>, usize)>, k: Seq<char>)
    ensures
        count_idx(m, k) == -1 ==> forall|j: int| 0 <= j < m.len() ==> m[j].0 != k,
        count_idx(m, k) != -1 ==> {
            let r = count_idx(m, k);
            &&& 0 <= r < m.len()
            &&& m[r].0 == k
            &&& forall|j: int| 0 <= j < r ==> m[j].0 != k
        },
    decreases m.len(),
{
    if m.len() > 0 && m[0].0 != k {
        lemma_count_idx(m.drop_first(), k);
        assert forall|j: int| 1 <= j < m.len() implies m.drop_first()[j - 1] == m[j] by {}
    }
}

/// One step of the stateful anchor generator on a base slug: the first
/// occurrence is emitted bare and recorded with count one; each later
/// occurrence appends a hyphen and the current count, which then increments.
pub open spec fn anchor_step(m: Seq<(Seq<char>, usize)>, base: Seq<char>) -> (
    Seq<char>,
    Seq<(Seq<char>, usize)>,
) {
    let idx = count_idx(m, base);
    if idx == -1 {
        (base, m.push((base, 1)))
    } else {
        let n = m[idx].1;
        (base + seq!['-'] + dec_str(n as int), m.update(idx, (base, sat_inc(n))))
    }
}

/// Manages anchor generation with duplicate handling. One instance lives for
/// one render pass; its per-slug counters make later duplicates unique.
pub struct AnchorGenerator {
    counts: Vec<(String, usize)>,
}

pub open spec fn counts_view(v: Seq<(String, usize)>) -> Seq<(Seq<char>, usize)> {
    Seq::new(v.len(), |i: int| (v[i].0@, v[i].1))
}

impl View for AnchorGenerator {
    type V = Seq<(Seq<char>, usize)>;

    closed spec fn view(&self) -> Seq<(Seq<char>, usize)> {
        counts_view(self.counts@)
    }
}

impl AnchorGenerator {
    /// A fresh generator with no counters.
    pub fn new() -> (r: AnchorGenerator)
        ensures
            r@ == Seq::<(Seq<char>, usize)>::empty(),
    {
        let r = AnchorGenerator { counts: Vec::new() };
        proof {
            assert(r@ =~= Seq::<(Seq<char>, usize)>::empty());
        }
        r
    }

    /// Generates a unique anchor from text: the slug, with a numbered suffix
    /// for repeats.
    pub fn generate(&mut self, text: &str) -> (r: String)
        ensures
            (r@, final(self)@) == anchor_step(old(self)@, slug_of(text@)),
    {
        let base = generate_anchor(text);
        let mut i: usize = 0;
        let mut found: bool = false;
        while i < self.counts.len() && !found
            invariant
                i <= self.counts.len(),
                !found ==> forall|j: int| 0 <= j < i ==> self.counts@[j].0@ != base@,
                found ==> i < self.counts.len() && self.counts@[i as int].0@ == base@ && forall|
                    j: int,
                |
                    0 <= j < i ==> self.counts@[j].0@ != base@,
            decreases self.counts.len() - i + (if found {
                0int
            } else {
                1int
            }),
        {
            if self.counts[i].0 == base {
                found = true;
            } else {
                i += 1;
            }
        }
        proof {
            lemma_count_idx(self@, base@);
            let m = self@;
            assert(forall|j: int|
                0 <= j < m.len() ==> m[j] == (self.counts@[j].0@, self.counts@[j].1));
            let r = count_idx(m, base@);
            if found {
                assert(m[i as int].0 == base@);
                assert(r != -1);
                if r < i as int {
                    assert(self.counts@[r].0@ != base@);
                    assert(false);
                }
                if r > i as int {
                    assert(m[i as int].0 != base@);
                    assert(false);
                }
                assert(r == i as int);
            } else {
                if r != -1 {
                    assert(self.counts@[r].0@ != base@);
                    assert(false);
                }
                assert(r == -1);
            }
        }
        if found {
            let n = self.counts[i].1;
            let mut anchor = base.clone();
            proof {
                reveal_strlit("-");
                assert("-"@ =~= seq!['-']);
            }
            anchor.append("-");
            let ns = dec_string(n as u64);
            anchor.append(ns.as_str());
            let n2 = if n < usize::MAX {
                n + 1
            } else {
                n
            };
            let ghost oldcounts = self.counts@;
            self.counts.remove(i);
            self.counts.insert(i, (base, n2));
            proof {
                assert(self.counts@ =~= oldcounts.update(i as int, (base, n2)));
                assert(counts_view(self.counts@) =~= counts_view(oldcounts).update(
                    i as int,
                    (base@, n2),
                ));
            }
            anchor
        } else {
            let ghost oldcounts = self.counts@;
            self.counts.push((base.clone(), 1));
            proof {
                assert(counts_view(self.counts@) =~= counts_view(oldcounts).push((base@, 1usize)));
            }
            base
        }
    }
}

/// One step of the TOC fold: a top-level heading contributes an entry whose
/// anchor comes from the shared generator state.
pub open spec fn toc_fold(
    elements: Seq<ElementV>,
    i: int,
    m: Seq<(Seq<char>, usize)>,
    acc: Seq<TocEntryV>,
) -> Seq<TocEntryV>
    decreases elements.len() - i,
{
    if i < 0 || i >= elements.len() {
        acc
    } else {
        match elements[i] {
            ElementV::Heading { level, content } => {
                let (anchor, m2) = anchor_step(m, slug_of(content));
                toc_fold(
                    elements,
                    i + 1,
                    m2,
                    acc.push(TocEntryV { level, text: content, anchor }),
                )
            },
            _ => toc_fold(elements, i + 1, m, acc),
        }
    }
}

/// The table of contents of a document: its top-level headings, in order,
/// with de-duplicated anchors from one generator instance.
pub open spec fn toc_of(doc: DocumentV) -> Seq<TocEntryV> {
    toc_fold(doc.elements, 0, Seq::empty(), Seq::empty())
}

/// Generates the table of contents from a document's top-level headings.
pub fn generate_toc(document: &crate::ast::Document) -> (r: Vec<TocEntry>)
    ensures
        entries_view(r@) == toc_of(document@),
{
    let mut entries: Vec<TocEntry> = Vec::new();
    let mut anchor_gen = AnchorGenerator::new();
    let mut i: usize = 0;
    proof {
        lemma_entries_view_empty();
    }
    while i < document.elements.len()
        invariant
            i <= document.elements.len(),
            toc_of(document@) == toc_fold(
                elems_view(document.elements@),
                i as int,
                anchor_gen@,
                entries_view(entries@),
            ),
        decreases document.elements.len() - i,
    {
        match &document.elements[i] {
            Element::Heading { level, content } => {
                let level = *level;
                let anchor = anchor_gen.generate(content.as_str());
                let entry = TocEntry { level, text: content.clone(), anchor };
                let ghost olde = entries@;
                let ghost e0 = entry;
                entries.push(entry);
                proof {
                    lemma_entries_view_push(olde, e0);
                }
            },
            _ => (),
        }
        i += 1;
    }
    entries
}

} // verus!
