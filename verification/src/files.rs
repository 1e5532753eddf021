//! The Markdown file tree: a base directory and the files under it, ordered
//! for display. Paths are held as plain strings with `/` separators; the
//! caller that walks the file system hands them in.

use vstd::prelude::*;

use crate::anchor::{lower_of, lowercase};
use crate::textutil::{str_chars, str_eq, string_from_chars};

verus! {

/// A Markdown file: its absolute path, its path relative to the base
/// directory, and its display name (the file name without extension).
#[derive(Debug)]
pub struct MarkdownFile {
    pub absolute_path: String,
    pub relative_path: String,
    pub name: String,
}

/// Mathematical mirror of `MarkdownFile`.
pub struct MarkdownFileV {
    pub absolute_path: Seq<char>,
    pub relative_path: Seq<char>,
    pub name: Seq<char>,
}

impl View for MarkdownFile {
    type V = MarkdownFileV;

    open spec fn view(&self) -> MarkdownFileV {
        MarkdownFileV {
            absolute_path: self.absolute_path@,
            relative_path: self.relative_path@,
            name: self.name@,
        }
    }
}

/// A directory structure of Markdown files.
#[derive(Debug)]
pub struct FileTree {
    pub base_path: String,
    pub files: Vec<MarkdownFile>,
}

/// The last position of `c` strictly before `j`, or -1.
pub open spec fn rfind_at(s: Seq<char>, c: char, j: int) -> int
    decreases j,
{
    if j <= 0 || j > s.len() {
        -1
    } else if s[j - 1] == c {
        j - 1
    } else {
        rfind_at(s, c, j - 1)
    }
}

/// The parent of a path: everything before the last separator, or the path
/// itself when it has none.
pub open spec fn parent_of(s: Seq<char>) -> Seq<char> {
    let i = rfind_at(s, '/', s.len() as int);
    if i == -1 {
        s
    } else {
        s.subrange(0, i)
    }
}

/// The file name of a path: everything after the last separator.
pub open spec fn file_name_of(s: Seq<char>) -> Seq<char> {
    let i = rfind_at(s, '/', s.len() as int);
    s.subrange(i + 1, s.len() as int)
}

/// The file stem: the file name up to its last dot, when that dot is not the
/// leading character; the whole file name otherwise.
pub open spec fn stem_of(s: Seq<char>) -> Seq<char> {
    let n = file_name_of(s);
    let d = rfind_at(n, '.', n.len() as int);
    if d > 0 {
        n.subrange(0, d)
    } else {
        n
    }
}

/// The display name: the stem, or a placeholder when it is empty.
pub open spec fn display_name_of(s: Seq<char>) -> Seq<char> {
    if stem_of(s).len() == 0 {
        "untitled"@
    } else {
        stem_of(s)
    }
}

proof fn lemma_rfind_at_bounds(s: Seq<char>, c: char, j: int)
    requires
        0 <= j <= s.len(),
    ensures
        -1 <= rfind_at(s, c, j) < j,
        rfind_at(s, c, j) >= 0 ==> s[rfind_at(s, c, j)] == c,
    decreases j,
{
    if j > 0 && s[j - 1] != c {
        lemma_rfind_at_bounds(s, c, j - 1);
    }
}

/// The last position of `c` in the string, when it occurs.
fn rfind_char(v: &Vec<char>, c: char) -> (r: Option<usize>)
    ensures
        match r {
            Option::Some(i) => rfind_at(v@, c, v@.len() as int) == i as int,
            Option::None => rfind_at(v@, c, v@.len() as int) == -1,
        },
{
    let mut j: usize = v.len();
    while j > 0
        invariant
            0 <= j <= v.len(),
            rfind_at(v@, c, v@.len() as int) == rfind_at(v@, c, j as int),
        decreases j,
    {
        if v[j - 1] == c {
            return Option::Some(j - 1);
        }
        j -= 1;
    }
    Option::None
}

/// Splits an absolute path into parent, file name, and display name.
fn split_path(path: &str) -> (r: (String, String, String))
    ensures
        r.0@ == parent_of(path@),
        r.1@ == file_name_of(path@),
        r.2@ == display_name_of(path@),
{
    let cs = str_chars(path);
    proof {
        lemma_rfind_at_bounds(cs@, '/', cs@.len() as int);
    }
    let slash = rfind_char(&cs, '/');
    let total = cs.len();
    let name_start: usize;
    let parent_end: usize;
    match slash {
        Option::Some(i) => {
            proof {
                assert(i < total);
            }
            name_start = i + 1;
            parent_end = i;
        },
        Option::None => {
            name_start = 0;
            parent_end = cs.len();
        },
    }
    let mut parent: Vec<char> = Vec::new();
    let mut k: usize = 0;
    while k < parent_end
        invariant
            k <= parent_end <= cs.len(),
            parent@ == cs@.subrange(0, k as int),
        decreases parent_end - k,
    {
        parent.push(cs[k]);
        proof {
            assert(parent@ =~= cs@.subrange(0, k + 1 as int));
        }
        k += 1;
    }
    proof {
        if slash is None {
            assert(cs@.subrange(0, cs@.len() as int) =~= cs@);
        }
    }
    let mut name: Vec<char> = Vec::new();
    let mut k2: usize = name_start;
    while k2 < cs.len()
        invariant
            name_start <= k2 <= cs.len(),
            name@ == cs@.subrange(name_start as int, k2 as int),
        decreases cs.len() - k2,
    {
        name.push(cs[k2]);
        proof {
            assert(name@ =~= cs@.subrange(name_start as int, k2 + 1 as int));
        }
        k2 += 1;
    }
    proof {
        assert(name@ == file_name_of(path@));
        lemma_rfind_at_bounds(name@, '.', name@.len() as int);
    }
    let dot = rfind_char(&name, '.');
    let stem_end: usize = match dot {
        Option::Some(i) if i > 0 => i,
        _ => name.len(),
    };
    let mut stem: Vec<char> = Vec::new();
    let mut k3: usize = 0;
    while k3 < stem_end
        invariant
            k3 <= stem_end <= name.len(),
            stem@ == name@.subrange(0, k3 as int),
        decreases stem_end - k3,
    {
        stem.push(name[k3]);
        proof {
            assert(stem@ =~= name@.subrange(0, k3 + 1 as int));
        }
        k3 += 1;
    }
    proof {
        if stem_end == name@.len() {
            assert(name@.subrange(0, name@.len() as int) =~= name@);
        }
        assert(stem@ == stem_of(path@));
    }
    let display = if stem.len() == 0 {
        let mut u: Vec<char> = Vec::new();
        crate::textutil::push_str_chars(&mut u, "untitled");
        proof {
            assert(u@ =~= Seq::<char>::empty() + "untitled"@);
        }
        u
    } else {
        stem
    };
    (string_from_chars(&parent), string_from_chars(&name), string_from_chars(&display))
}

/// Characters compared by code point, sequences lexicographically.
pub open spec fn lex_le(a: Seq<char>, b: Seq<char>) -> bool
    decreases a.len(),
{
    if a.len() == 0 {
        true
    } else if b.len() == 0 {
        false
    } else if a[0] == b[0] {
        lex_le(a.drop_first(), b.drop_first())
    } else {
        a[0] < b[0]
    }
}

pub proof fn lemma_lex_le_total(a: Seq<char>, b: Seq<char>)
    ensures
        lex_le(a, b) || lex_le(b, a),
    decreases a.len(),
{
    if a.len() > 0 && b.len() > 0 {
        if a[0] == b[0] {
            lemma_lex_le_total(a.drop_first(), b.drop_first());
        }
    }
}

pub proof fn lemma_lex_le_trans(a: Seq<char>, b: Seq<char>, c: Seq<char>)
    requires
        lex_le(a, b),
        lex_le(b, c),
    ensures
        lex_le(a, c),
    decreases a.len(),
{
    if a.len() > 0 && b.len() > 0 && c.len() > 0 && a[0] == b[0] && b[0] == c[0] {
        lemma_lex_le_trans(a.drop_first(), b.drop_first(), c.drop_first());
    }
}

fn lex_le_str(a: &str, b: &str) -> (r: bool)
    ensures
        r == lex_le(a@, b@),
{
    let av = str_chars(a);
    let bv = str_chars(b);
    let mut i: usize = 0;
    proof {
        assert(a@.skip(0) =~= a@);
        assert(b@.skip(0) =~= b@);
    }
    while i < av.len() && i < bv.len() && av[i] == bv[i]
        invariant
            i <= av.len(),
            i <= bv.len(),
            av@ == a@,
            bv@ == b@,
            lex_le(a@, b@) == lex_le(a@.skip(i as int), b@.skip(i as int)),
        decreases av.len() - i,
    {
        proof {
            assert(a@.skip(i as int).drop_first() =~= a@.skip(i + 1 as int));
            assert(b@.skip(i as int).drop_first() =~= b@.skip(i + 1 as int));
        }
        i += 1;
    }
    proof {
        assert(a@.skip(i as int).len() == a@.len() - i);
        assert(b@.skip(i as int).len() == b@.len() - i);
        if i < av@.len() && i < bv@.len() {
            assert(a@.skip(i as int)[0] == a@[i as int]);
            assert(b@.skip(i as int)[0] == b@[i as int]);
        }
    }
    if i >= av.len() {
        true
    } else if i >= bv.len() {
        false
    } else {
        av[i] < bv[i]
    }
}

/// The display rank used when ordering a directory listing: the chosen
/// target file first, then any readme, then the rest.
pub open spec fn file_rank(target: Option<Seq<char>>, f: MarkdownFileV) -> int {
    if target == Option::Some(f.relative_path) {
        0
    } else if lower_of(f.name) == "readme"@ {
        1
    } else {
        2
    }
}

/// The display order of a directory listing: by rank, then by relative path.
pub open spec fn file_le(target: Option<Seq<char>>, a: MarkdownFileV, b: MarkdownFileV) -> bool {
    if file_rank(target, a) != file_rank(target, b) {
        file_rank(target, a) < file_rank(target, b)
    } else {
        lex_le(a.relative_path, b.relative_path)
    }
}

pub proof fn lemma_file_le_total(target: Option<Seq<char>>, a: MarkdownFileV, b: MarkdownFileV)
    ensures
        file_le(target, a, b) || file_le(target, b, a),
{
    lemma_lex_le_total(a.relative_path, b.relative_path);
}

pub proof fn lemma_file_le_trans(
    target: Option<Seq<char>>,
    a: MarkdownFileV,
    b: MarkdownFileV,
    c: MarkdownFileV,
)
    requires
        file_le(target, a, b),
        file_le(target, b, c),
    ensures
        file_le(target, a, c),
{
    if file_rank(target, a) == file_rank(target, b) && file_rank(target, b) == file_rank(
        target,
        c,
    ) {
        lemma_lex_le_trans(a.relative_path, b.relative_path, c.relative_path);
    }
}

pub open spec fn sorted_files(target: Option<Seq<char>>, s: Seq<MarkdownFile>) -> bool {
    forall|i: int, j: int| 0 <= i < j < s.len() ==> file_le(target, #[trigger] s[i]@, #[trigger] s[j]@)
}

fn file_le_exec(target: Option<&String>, a: &MarkdownFile, b: &MarkdownFile) -> (r: bool)
    ensures
        r == file_le(
            match target {
                Option::Some(t) => Option::Some(t@),
                Option::None => Option::None,
            },
            a@,
            b@,
        ),
{
    let ra = file_rank_exec(target, a);
    let rb = file_rank_exec(target, b);
    if ra != rb {
        ra < rb
    } else {
        lex_le_str(a.relative_path.as_str(), b.relative_path.as_str())
    }
}

fn file_rank_exec(target: Option<&String>, f: &MarkdownFile) -> (r: u8)
    ensures
        r as int == file_rank(
            match target {
                Option::Some(t) => Option::Some(t@),
                Option::None => Option::None,
            },
            f@,
        ),
{
    let is_target = match target {
        Option::Some(t) => str_eq(f.relative_path.as_str(), t.as_str()),
        Option::None => false,
    };
    if is_target {
        0
    } else {
        let lowered = lowercase(f.name.as_str());
        if str_eq(lowered.as_str(), "readme") {
            1
        } else {
            2
        }
    }
}

/// Sorts a directory listing for display: the chosen target file first (when
/// one is given), then any readme, then the rest by relative path. The
/// result holds exactly the given files.
fn sort_files(target: Option<&String>, files: Vec<MarkdownFile>) -> (r: Vec<MarkdownFile>)
    ensures
        r@.to_multiset() == files@.to_multiset(),
        sorted_files(
            match target {
                Option::Some(t) => Option::Some(t@),
                Option::None => Option::None,
            },
            r@,
        ),
{
    broadcast use vstd::seq_lib::group_to_multiset_ensures;

    let ghost tv: Option<Seq<char>> = match target {
        Option::Some(t) => Option::Some(t@),
        Option::None => Option::None,
    };
    let ghost all = files@.to_multiset();
    let mut work = files;
    let mut out: Vec<MarkdownFile> = Vec::new();
    proof {
        assert(out@.to_multiset().add(work@.to_multiset()) =~= all);
    }
    while work.len() > 0
        invariant
            out@.to_multiset().add(work@.to_multiset()) == all,
            sorted_files(tv, out@),
            tv == (match target {
                Option::Some(t) => Option::Some(t@),
                Option::None => Option::None,
            }),
            forall|i: int, j: int|
                0 <= i < out@.len() && 0 <= j < work@.len() ==> file_le(
                    tv,
                    #[trigger] out@[i]@,
                    #[trigger] work@[j]@,
                ),
        decreases work.len(),
    {
        let mut m: usize = 0;
        let mut k: usize = 1;
        proof {
            lemma_file_le_total(tv, work@[0]@, work@[0]@);
        }
        while k < work.len()
            invariant
                m < k <= work.len() || (k <= work.len() && m == 0),
                m < work.len(),
                forall|j: int| 0 <= j < k as int ==> file_le(tv, work@[m as int]@, #[trigger] work@[j]@),
                tv == (match target {
                    Option::Some(t) => Option::Some(t@),
                    Option::None => Option::None,
                }),
            decreases work.len() - k,
        {
            if !file_le_exec(target, &work[m], &work[k]) {
                proof {
                    lemma_file_le_total(tv, work@[m as int]@, work@[k as int]@);
                    assert forall|j: int| 0 <= j < k as int + 1 implies file_le(
                        tv,
                        work@[k as int]@,
                        #[trigger] work@[j]@,
                    ) by {
                        if j < k as int {
                            lemma_file_le_trans(tv, work@[k as int]@, work@[m as int]@, work@[j]@);
                        } else {
                            lemma_file_le_total(tv, work@[k as int]@, work@[k as int]@);
                        }
                    }
                }
                m = k;
            }
            k += 1;
        }
        proof {
            lemma_file_le_total(tv, work@[m as int]@, work@[m as int]@);
        }
        let ghost workpre = work@;
        let f = work.remove(m);
        let ghost outpre = out@;
        out.push(f);
        proof {
            broadcast use vstd::multiset::group_multiset_axioms;

            workpre.to_multiset_ensures();
            outpre.to_multiset_ensures();
            assert(0 <= m as int && (m as int) < workpre.len());
            assert(workpre.contains(workpre[m as int])) by {
                assert(workpre[m as int] == workpre[m as int]);
            }
            assert(workpre.to_multiset().count(workpre[m as int]) > 0);
            assert(out@.to_multiset().add(work@.to_multiset()) =~= all);
            assert forall|i: int, j: int|
                0 <= i < out@.len() && 0 <= j < work@.len() implies file_le(
                tv,
                #[trigger] out@[i]@,
                #[trigger] work@[j]@,
            ) by {
                let wj = work@[j];
                if j < m as int {
                    assert(workpre[j] == wj);
                } else {
                    assert(workpre[j + 1] == wj);
                }
                if i < outpre.len() {
                    assert(out@[i] == outpre[i]);
                } else {
                    assert(out@[i] == workpre[m as int]);
                }
            }
            assert forall|i: int, j: int| 0 <= i < j < out@.len() implies file_le(
                tv,
                #[trigger] out@[i]@,
                #[trigger] out@[j]@,
            ) by {
                if j == out@.len() - 1 {
                    assert(out@[j] == workpre[m as int]);
                    assert(outpre[i] == out@[i]);
                }
            }
        }
    }
    out
}

/// A path with backslashes mapped to separators.
pub open spec fn bs_map(s: Seq<char>) -> Seq<char> {
    Seq::new(
        s.len(),
        |i: int|
            if 0 <= i < s.len() && s[i] == '\\' {
                '/'
            } else if 0 <= i < s.len() {
                s[i]
            } else {
                '/'
            },
    )
}

/// The position after all leading occurrences of the two-character prefix.
pub open spec fn strip_prefix_at(s: Seq<char>, c0: char, c1: char, a: int) -> int
    decreases s.len() - a,
{
    if a < 0 || a + 2 > s.len() {
        a
    } else if s[a] == c0 && s[a + 1] == c1 {
        strip_prefix_at(s, c0, c1, a + 2)
    } else {
        a
    }
}

/// A looked-up path, normalized: leading same-directory prefixes (with
/// either separator) stripped, then backslashes mapped to slashes.
pub open spec fn norm_input(s: Seq<char>) -> Seq<char> {
    let a = strip_prefix_at(s, '.', '/', 0);
    let b = strip_prefix_at(s, '.', '\\', a);
    bs_map(s.skip(b))
}

/// A stored relative path, normalized: backslashes mapped to slashes.
pub open spec fn norm_path(s: Seq<char>) -> Seq<char> {
    bs_map(s)
}

fn backslash_to_slash(s: &str) -> (r: String)
    ensures
        r@ == bs_map(s@),
{
    let cs = str_chars(s);
    let mut out: Vec<char> = Vec::new();
    let mut i: usize = 0;
    while i < cs.len()
        invariant
            i <= cs.len(),
            cs@ == s@,
            out@ == bs_map(s@).take(i as int),
        decreases cs.len() - i,
    {
        if cs[i] == '\\' {
            out.push('/');
        } else {
            out.push(cs[i]);
        }
        proof {
            assert(out@ =~= bs_map(s@).take(i + 1 as int));
        }
        i += 1;
    }
    proof {
        assert(bs_map(s@).take(cs@.len() as int) =~= bs_map(s@));
    }
    string_from_chars(&out)
}

proof fn lemma_strip_prefix_bounds(s: Seq<char>, c0: char, c1: char, a: int)
    requires
        0 <= a <= s.len(),
    ensures
        a <= strip_prefix_at(s, c0, c1, a) <= s.len(),
    decreases s.len() - a,
{
    if a + 2 <= s.len() && s[a] == c0 && s[a + 1] == c1 {
        lemma_strip_prefix_bounds(s, c0, c1, a + 2);
    }
}

/// Normalizes a looked-up path.
fn normalize_input(s: &str) -> (r: String)
    ensures
        r@ == norm_input(s@),
{
    let cs = str_chars(s);
    let mut a: usize = 0;
    proof {
        lemma_strip_prefix_bounds(s@, '.', '/', 0);
    }
    while a < cs.len() && a + 1 < cs.len() && cs[a] == '.' && cs[a + 1] == '/'
        invariant
            a <= cs.len(),
            cs@ == s@,
            strip_prefix_at(s@, '.', '/', 0) == strip_prefix_at(s@, '.', '/', a as int),
        decreases cs.len() - a,
    {
        a += 2;
    }
    proof {
        assert(strip_prefix_at(s@, '.', '/', a as int) == a as int);
        lemma_strip_prefix_bounds(s@, '.', '\\', a as int);
    }
    let mut b: usize = a;
    while b < cs.len() && b + 1 < cs.len() && cs[b] == '.' && cs[b + 1] == '\\'
        invariant
            a <= b <= cs.len(),
            cs@ == s@,
            strip_prefix_at(s@, '.', '\\', a as int) == strip_prefix_at(s@, '.', '\\', b as int),
        decreases cs.len() - b,
    {
        b += 2;
    }
    proof {
        assert(strip_prefix_at(s@, '.', '\\', b as int) == b as int);
    }
    let mut out: Vec<char> = Vec::new();
    let mut i: usize = b;
    while i < cs.len()
        invariant
            b <= i <= cs.len(),
            cs@ == s@,
            out@ == bs_map(s@.skip(b as int)).take(i - b),
        decreases cs.len() - i,
    {
        if cs[i] == '\\' {
            out.push('/');
        } else {
            out.push(cs[i]);
        }
        proof {
            assert(out@ =~= bs_map(s@.skip(b as int)).take(i + 1 - b));
        }
        i += 1;
    }
    proof {
        assert(bs_map(s@.skip(b as int)).take(cs@.len() - b) =~= bs_map(s@.skip(b as int)));
        assert(out@ == norm_input(s@));
    }
    string_from_chars(&out)
}

impl FileTree {
    /// A tree over scanned files: the listing is sorted with any readme
    /// first, then by relative path.
    pub fn from_files(base_path: String, files: Vec<MarkdownFile>) -> (r: FileTree)
        ensures
            r.base_path == base_path,
            r.files@.to_multiset() == files@.to_multiset(),
            sorted_files(Option::None, r.files@),
    {
        let sorted = sort_files(Option::None, files);
        FileTree { base_path, files: sorted }
    }

    /// A tree holding one file: the base is the file's parent directory, and
    /// the file is known by its bare name.
    pub fn from_file(absolute_path: &str) -> (r: FileTree)
        ensures
            r.base_path@ == parent_of(absolute_path@),
            r.files@.len() == 1,
            r.files@[0]@.absolute_path == absolute_path@,
            r.files@[0]@.relative_path == file_name_of(absolute_path@),
            r.files@[0]@.name == display_name_of(absolute_path@),
    {
        let (parent, name, display) = split_path(absolute_path);
        let file = MarkdownFile {
            absolute_path: absolute_path.to_owned(),
            relative_path: name,
            name: display,
        };
        let mut files = Vec::new();
        files.push(file);
        FileTree { base_path: parent, files }
    }

    /// Re-orders an existing tree so the given file comes first, then any
    /// readme, then the rest by relative path.
    pub fn from_file_with_context(tree: FileTree, target_relative: &str) -> (r: FileTree)
        ensures
            r.base_path == tree.base_path,
            r.files@.to_multiset() == tree.files@.to_multiset(),
            sorted_files(Option::Some(target_relative@), r.files@),
    {
        let target = target_relative.to_owned();
        let sorted = sort_files(Option::Some(&target), tree.files);
        FileTree { base_path: tree.base_path, files: sorted }
    }

    /// The default file to display: the first of the listing.
    pub fn default_file(&self) -> (r: Option<&MarkdownFile>)
        ensures
            match r {
                Option::Some(f) => self.files@.len() > 0 && *f == self.files@[0],
                Option::None => self.files@.len() == 0,
            },
    {
        if self.files.len() > 0 {
            Option::Some(&self.files[0])
        } else {
            Option::None
        }
    }

    /// Finds a file by its relative path. The given path is normalized —
    /// leading same-directory prefixes stripped and backslashes mapped to
    /// slashes — and compared against each file's relative path, normalized
    /// the same way; the first match wins.
    pub fn find_file(&self, relative_path: &str) -> (r: Option<&MarkdownFile>)
        ensures
            match r {
                Option::Some(f) => exists|i: int|
                    {
                        &&& 0 <= i < self.files@.len()
                        &&& *f == self.files@[i]
                        &&& norm_path(self.files@[i]@.relative_path) == norm_input(relative_path@)
                        &&& forall|j: int|
                            0 <= j < i ==> norm_path(#[trigger] self.files@[j]@.relative_path)
                                != norm_input(relative_path@)
                    },
                Option::None => forall|j: int|
                    0 <= j < self.files@.len() ==> norm_path(
                        #[trigger] self.files@[j]@.relative_path,
                    ) != norm_input(relative_path@),
            },
    {
        let normalized = normalize_input(relative_path);
        let mut i: usize = 0;
        while i < self.files.len()
            invariant
                i <= self.files@.len(),
                normalized@ == norm_input(relative_path@),
                forall|j: int|
                    0 <= j < i as int ==> norm_path(#[trigger] self.files@[j]@.relative_path)
                        != norm_input(relative_path@),
            decreases self.files@.len() - i,
        {
            let candidate = backslash_to_slash(self.files[i].relative_path.as_str());
            if str_eq(candidate.as_str(), normalized.as_str()) {
                return Option::Some(&self.files[i]);
            }
            i += 1;
        }
        Option::None
    }

    /// Whether the tree holds a single file (not directory mode).
    pub fn is_single_file(&self) -> (r: bool)
        ensures
            r == (self.files@.len() == 1),
    {
        self.files.len() == 1
    }
}

} // verus!
