//! The course outline as Markdown (the screen and the export share it):
//! one section per heading with its points and references, then the
//! referenced sources as footnotes.
use vstd::prelude::*;
use crate::refs::strictly_increasing;
use crate::text::{chars_of, decimal, decimal_string, parse_usize, parse_usize_spec, string_of, trim, trim_chars, views};

verus! {

/// A reference as the outline JSON gives it.
#[derive(Debug, Clone)]
pub enum RefValue {
    /// An unsigned number.
    Num(u64),
    /// A string such as "3" or "[3]".
    Text(String),
    /// Anything else (ignored).
    Other,
}

/// A section of the outline JSON: `title` when it is a string, the
/// `points` (a non-string point reads as empty), the `refs`.
#[derive(Debug, Clone)]
pub struct OutlineSectionDoc {
    pub title: Option<String>,
    pub points: Vec<Option<String>>,
    pub refs: Vec<RefValue>,
}

/// The outline JSON: its `sections`.
#[derive(Debug, Clone)]
pub struct OutlineDoc {
    pub sections: Vec<OutlineSectionDoc>,
}

/// `s` without the leading `c`s.
pub open spec fn strip_start(s: Seq<char>, c: char) -> Seq<char>
    decreases s.len(),
{
    if s.len() > 0 && s[0] == c {
        strip_start(s.drop_first(), c)
    } else {
        s
    }
}

/// `s` without the trailing `c`s.
pub open spec fn strip_end(s: Seq<char>, c: char) -> Seq<char>
    decreases s.len(),
{
    if s.len() > 0 && s.last() == c {
        strip_end(s.drop_last(), c)
    } else {
        s
    }
}

/// The source number a reference names, if any: a number as it is, a
/// string trimmed and stripped of its brackets then read as a number.
pub open spec fn ref_number(r: RefValue) -> Option<usize> {
    match r {
        RefValue::Num(n) => Some(n as usize),
        RefValue::Text(s) => parse_usize_spec(strip_end(strip_start(trim(s@), '['), ']')),
        RefValue::Other => None,
    }
}

/// The source numbers of a section, in order.
pub open spec fn section_refs(refs: Seq<RefValue>) -> Seq<usize>
    decreases refs.len(),
{
    if refs.len() == 0 {
        Seq::empty()
    } else {
        section_refs(refs.drop_last()) + match ref_number(refs.last()) {
            Some(n) => seq![n],
            None => Seq::empty(),
        }
    }
}

/// `[n]` for each number, separated by spaces.
pub open spec fn ref_marks(ns: Seq<usize>) -> Seq<char>
    decreases ns.len(),
{
    if ns.len() == 0 {
        Seq::empty()
    } else if ns.len() == 1 {
        "["@ + decimal(ns[0] as nat) + "]"@
    } else {
        ref_marks(ns.drop_last()) + " "@ + "["@ + decimal(ns.last() as nat) + "]"@
    }
}

/// The bullet lines of the points.
pub open spec fn point_lines(points: Seq<Option<String>>) -> Seq<char>
    decreases points.len(),
{
    if points.len() == 0 {
        Seq::empty()
    } else {
        point_lines(points.drop_last()) + "- "@ + match points.last() {
            Some(p) => p@,
            None => Seq::empty(),
        } + "\n"@
    }
}

/// The Markdown of one section.
pub open spec fn section_md(s: OutlineSectionDoc) -> Seq<char> {
    let refs = section_refs(s.refs@);
    "## "@ + match s.title {
        Some(t) => t@,
        None => "(未命名)"@,
    } + "\n"@ + point_lines(s.points@) + (if refs.len() > 0 {
        "\n> 参考: "@ + ref_marks(refs) + "\n"@
    } else {
        Seq::empty()
    }) + "\n"@
}

pub open spec fn sections_md(ss: Seq<OutlineSectionDoc>) -> Seq<char>
    decreases ss.len(),
{
    if ss.len() == 0 {
        Seq::empty()
    } else {
        sections_md(ss.drop_last()) + section_md(ss.last())
    }
}

/// All source numbers of all sections, in order.
pub open spec fn all_refs(ss: Seq<OutlineSectionDoc>) -> Seq<usize>
    decreases ss.len(),
{
    if ss.len() == 0 {
        Seq::empty()
    } else {
        all_refs(ss.drop_last()) + section_refs(ss.last().refs@)
    }
}

/// The numbers of `s`, ascending, each once.
pub open spec fn ascending_of(s: Seq<usize>) -> Seq<usize> {
    choose|u: Seq<usize>| strictly_increasing(u) && forall|x: usize| u.contains(x) <==> s.contains(x)
}

/// The title of source `n` (numbered from 1; 0 reads as the first),
/// "未知" when there is no such source.
pub open spec fn source_title(titles: Seq<(i64, String)>, n: usize) -> Seq<char> {
    let i = if n > 0 {
        n - 1
    } else {
        0
    };
    if i < titles.len() {
        titles[i].1@
    } else {
        "未知"@
    }
}

/// The footnote lines of the numbers `ns`.
pub open spec fn footnotes(ns: Seq<usize>, titles: Seq<(i64, String)>) -> Seq<char>
    decreases ns.len(),
{
    if ns.len() == 0 {
        Seq::empty()
    } else {
        footnotes(ns.drop_last(), titles) + "- ["@ + decimal(ns.last() as nat) + "] "@ + source_title(
            titles,
            ns.last(),
        ) + "\n"@
    }
}

/// The outline of `course` as Markdown.
pub open spec fn outline_md(doc: OutlineDoc, course: Seq<char>, titles: Seq<(i64, String)>) -> Seq<char> {
    let refs = all_refs(doc.sections@);
    "# "@ + course + " 课程大纲\n\n"@ + sections_md(doc.sections@) + (if refs.len() > 0 {
        "## 引用来源\n\n"@ + footnotes(ascending_of(refs), titles)
    } else {
        Seq::empty()
    })
}

proof fn lemma_ascending_unique(a: Seq<usize>, b: Seq<usize>)
    requires
        strictly_increasing(a),
        strictly_increasing(b),
        forall|x: usize| a.contains(x) <==> b.contains(x),
    ensures
        a == b,
    decreases a.len() + b.len(),
{
    if a.len() == 0 {
        if b.len() > 0 {
            assert(b.contains(b[0]));
        }
    } else if b.len() == 0 {
        assert(a.contains(a[0]));
    } else {
        let la = a.last();
        let lb = b.last();
        assert(a.contains(la));
        assert(b.contains(lb));
        let ia = choose|i: int| 0 <= i < a.len() && a[i] == lb;
        let ib = choose|i: int| 0 <= i < b.len() && b[i] == la;
        assert(la == lb) by {
            if ia < a.len() - 1 {
                assert(a[ia] < la);
            }
            if ib < b.len() - 1 {
                assert(b[ib] < lb);
            }
        }
        let a2 = a.drop_last();
        let b2 = b.drop_last();
        assert forall|x: usize| a2.contains(x) <==> b2.contains(x) by {
            if a2.contains(x) {
                let i = choose|i: int| 0 <= i < a2.len() && a2[i] == x;
                assert(a[i] < la);
                assert(b.contains(x));
                let j = choose|j: int| 0 <= j < b.len() && b[j] == x;
                assert(j != b.len() - 1);
                assert(b2[j] == x);
            }
            if b2.contains(x) {
                let i = choose|i: int| 0 <= i < b2.len() && b2[i] == x;
                assert(b[i] < lb);
                assert(a.contains(x));
                let j = choose|j: int| 0 <= j < a.len() && a[j] == x;
                assert(j != a.len() - 1);
                assert(a2[j] == x);
            }
        }
        lemma_ascending_unique(a2, b2);
        assert(a =~= a2.push(la));
        assert(b =~= b2.push(lb));
    }
}

/// Adds `n` to an ascending list without duplicates.
fn insert_ascending(v: &mut Vec<usize>, n: usize)
    requires
        strictly_increasing(old(v)@),
    ensures
        strictly_increasing(final(v)@),
        forall|x: usize| final(v)@.contains(x) <==> (old(v)@.contains(x) || x == n),
{
    let mut p: usize = 0;
    while p < v.len() && v[p] < n
        invariant
            p <= v.len(),
            v@ == old(v)@,
            forall|a: int| 0 <= a < p ==> v@[a] < n,
        decreases v.len() - p,
    {
        p = p + 1;
    }
    if p < v.len() && v[p] == n {
        return;
    }
    let ghost pre = v@;
    v.insert(p, n);
    proof {
        pre.insert_ensures(p as int, n);
        let post = v@;
        assert forall|a: int, b: int| 0 <= a < b < post.len() implies post[a] < post[b] by {
            if b > p {
                assert(post[b] == pre[b - 1]);
                if b - 1 > p {
                    assert(pre[p as int] < pre[b - 1]);
                }
                if a > p {
                    assert(post[a] == pre[a - 1]);
                }
            }
        }
        assert forall|x: usize| post.contains(x) <==> (pre.contains(x) || x == n) by {
            if post.contains(x) {
                let i = choose|i: int| 0 <= i < post.len() && post[i] == x;
                if i < p {
                    assert(pre[i] == x);
                } else if i > p {
                    assert(pre[i - 1] == x);
                }
            }
            if pre.contains(x) {
                let i = choose|i: int| 0 <= i < pre.len() && pre[i] == x;
                if i < p {
                    assert(post[i] == x);
                } else {
                    assert(post[i + 1] == x);
                }
            }
            if x == n {
                assert(post[p as int] == x);
            }
        }
    }
}

/// `s` without its leading `c`s.
fn strip_start_chars(s: &Vec<char>, c: char) -> (r: Vec<char>)
    ensures
        r@ == strip_start(s@, c),
{
    let mut k: usize = 0;
    assert(s@.skip(0) =~= s@);
    while k < s.len() && s[k] == c
        invariant
            k <= s.len(),
            strip_start(s@, c) == strip_start(s@.skip(k as int), c),
        decreases s.len() - k,
    {
        assert(s@.skip(k as int).drop_first() =~= s@.skip(k + 1));
        k = k + 1;
    }
    let mut r: Vec<char> = Vec::new();
    let mut j = k;
    while j < s.len()
        invariant
            k <= j <= s.len(),
            r@ == s@.subrange(k as int, j as int),
        decreases s.len() - j,
    {
        r.push(s[j]);
        j = j + 1;
        assert(r@ =~= s@.subrange(k as int, j as int));
    }
    assert(s@.skip(k as int) =~= s@.subrange(k as int, s.len() as int));
    r
}

/// `s` without its trailing `c`s.
fn strip_end_chars(s: &Vec<char>, c: char) -> (r: Vec<char>)
    ensures
        r@ == strip_end(s@, c),
{
    let mut k: usize = s.len();
    assert(s@.take(k as int) =~= s@);
    while k > 0 && s[k - 1] == c
        invariant
            k <= s.len(),
            strip_end(s@, c) == strip_end(s@.take(k as int), c),
        decreases k,
    {
        assert(s@.take(k as int).drop_last() =~= s@.take(k - 1));
        k = k - 1;
    }
    let mut r: Vec<char> = Vec::new();
    let mut j: usize = 0;
    while j < k
        invariant
            j <= k <= s.len(),
            r@ == s@.take(j as int),
        decreases k - j,
    {
        r.push(s[j]);
        j = j + 1;
        assert(r@ =~= s@.take(j as int));
    }
    r
}

/// The source number a reference names.
pub fn ref_number_of(r: &RefValue) -> (n: Option<usize>)
    ensures
        n == ref_number(*r),
{
    match r {
        RefValue::Num(n) => Some(*n as usize),
        RefValue::Text(s) => {
            let t = trim_chars(&chars_of(s.as_str()));
            let a = strip_start_chars(&t, '[');
            let b = strip_end_chars(&a, ']');
            parse_usize(b.as_slice())
        },
        RefValue::Other => None,
    }
}

fn push_decimal(md: &mut String, n: usize)
    ensures
        final(md)@ == old(md)@ + decimal(n as nat),
{
    let d = decimal_string(n);
    md.push_str(d.as_str());
}

/// The source numbers of a section's references.
fn section_refs_of(refs: &Vec<RefValue>) -> (r: Vec<usize>)
    ensures
        r@ == section_refs(refs@),
{
    let mut out: Vec<usize> = Vec::new();
    let mut m: usize = 0;
    while m < refs.len()
        invariant
            m <= refs.len(),
            out@ == section_refs(refs@.take(m as int)),
        decreases refs.len() - m,
    {
        match ref_number_of(&refs[m]) {
            Some(n) => out.push(n),
            None => {},
        }
        proof {
            assert(refs@.take(m + 1).drop_last() =~= refs@.take(m as int));
            assert(out@ =~= section_refs(refs@.take(m + 1)));
        }
        m = m + 1;
    }
    assert(refs@.take(refs.len() as int) =~= refs@);
    out
}

/// Appends one section's Markdown; returns its source numbers.
fn push_section(md: &mut String, s: &OutlineSectionDoc) -> (refs: Vec<usize>)
    ensures
        final(md)@ == old(md)@ + section_md(*s),
        refs@ == section_refs(s.refs@),
{
    proof {
        reveal_strlit("## ");
        reveal_strlit("\n");
        reveal_strlit("- ");
        reveal_strlit("\n> 参考: ");
        reveal_strlit(" ");
        reveal_strlit("[");
        reveal_strlit("]");
        reveal_strlit("(未命名)");
    }
    md.push_str("## ");
    match &s.title {
        Some(t) => md.push_str(t.as_str()),
        None => md.push_str("(未命名)"),
    }
    md.push_str("\n");
    let mut k: usize = 0;
    let ghost head = md@;
    while k < s.points.len()
        invariant
            k <= s.points.len(),
            md@ == head + point_lines(s.points@.take(k as int)),
        decreases s.points.len() - k,
    {
        md.push_str("- ");
        match &s.points[k] {
            Some(p) => md.push_str(p.as_str()),
            None => {},
        }
        md.push_str("\n");
        proof {
            assert(s.points@.take(k + 1).drop_last() =~= s.points@.take(k as int));
            assert(md@ =~= head + point_lines(s.points@.take(k + 1)));
        }
        k = k + 1;
    }
    assert(s.points@.take(s.points.len() as int) =~= s.points@);
    let refs = section_refs_of(&s.refs);
    let ghost h1 = md@;
    if refs.len() > 0 {
        md.push_str("\n> 参考: ");
        let mut q: usize = 0;
        let ghost h2 = md@;
        while q < refs.len()
            invariant
                q <= refs.len(),
                md@ == h2 + ref_marks(refs@.take(q as int)),
            decreases refs.len() - q,
        {
            if q > 0 {
                md.push_str(" ");
            }
            md.push_str("[");
            push_decimal(md, refs[q]);
            md.push_str("]");
            proof {
                assert(refs@.take(q + 1).drop_last() =~= refs@.take(q as int));
                if q == 0 {
                    assert(refs@.take(1) =~= seq![refs@[0]]);
                }
                assert(md@ =~= h2 + ref_marks(refs@.take(q + 1)));
            }
            q = q + 1;
        }
        assert(refs@.take(refs.len() as int) =~= refs@);
        md.push_str("\n");
    }
    md.push_str("\n");
    proof {
        assert(md@ =~= old(md)@ + section_md(*s));
    }
    refs
}

/// Adds the numbers of `refs` to the ascending set `all`.
fn add_refs(all: &mut Vec<usize>, refs: &Vec<usize>)
    requires
        strictly_increasing(old(all)@),
    ensures
        strictly_increasing(final(all)@),
        forall|x: usize| final(all)@.contains(x) <==> (old(all)@.contains(x) || refs@.contains(x)),
{
    let mut q: usize = 0;
    while q < refs.len()
        invariant
            q <= refs.len(),
            strictly_increasing(all@),
            forall|x: usize| all@.contains(x) <==> (old(all)@.contains(x) || refs@.take(q as int).contains(x)),
        decreases refs.len() - q,
    {
        insert_ascending(all, refs[q]);
        proof {
            let p1 = refs@.take(q + 1);
            let p0 = refs@.take(q as int);
            assert(p1 =~= p0.push(refs@[q as int]));
            assert forall|x: usize| p1.contains(x) <==> (p0.contains(x) || x == refs@[q as int]) by {
                if p1.contains(x) {
                    let j = choose|j: int| 0 <= j < p1.len() && #[trigger] p1[j] == x;
                    if j < q {
                        assert(p0[j] == x);
                    }
                }
                if p0.contains(x) {
                    let j = choose|j: int| 0 <= j < p0.len() && #[trigger] p0[j] == x;
                    assert(p1[j] == x);
                }
                if x == refs@[q as int] {
                    assert(p1[q as int] == x);
                }
            }
        }
        q = q + 1;
    }
    assert(refs@.take(refs.len() as int) =~= refs@);
}

/// Appends the footnote lines of `all`.
fn push_footnotes(md: &mut String, all: &Vec<usize>, titles: &[(i64, String)])
    ensures
        final(md)@ == old(md)@ + footnotes(all@, titles@),
{
    proof {
        reveal_strlit("- [");
        reveal_strlit("] ");
        reveal_strlit("\n");
        reveal_strlit("未知");
    }
    let ghost h3 = md@;
    let mut q: usize = 0;
    while q < all.len()
        invariant
            q <= all.len(),
            md@ == h3 + footnotes(all@.take(q as int), titles@),
        decreases all.len() - q,
    {
        let n = all[q];
        md.push_str("- [");
        push_decimal(md, n);
        md.push_str("] ");
        let idx = if n > 0 {
            n - 1
        } else {
            0
        };
        if idx < titles.len() {
            md.push_str(titles[idx].1.as_str());
        } else {
            md.push_str("未知");
        }
        md.push_str("\n");
        proof {
            assert(all@.take(q + 1).drop_last() =~= all@.take(q as int));
            assert(md@ =~= h3 + footnotes(all@.take(q + 1), titles@));
        }
        q = q + 1;
    }
    assert(all@.take(all.len() as int) =~= all@);
}

/// Renders the outline of `course` as Markdown: a title, then each section
/// ("## title", its points as bullets, its references as "> 参考: [n] ...")
/// and, when any section refers to sources, the sources once each in
/// ascending order with their titles (`titles[n - 1]`, "未知" when missing).
pub fn render_outline_markdown(doc: &OutlineDoc, course: &str, titles: &[(i64, String)]) -> (r: String)
    ensures
        r@ == outline_md(*doc, course@, titles@),
{
    proof {
        reveal_strlit("# ");
        reveal_strlit(" 课程大纲\n\n");
        reveal_strlit("## 引用来源\n\n");
    }
    let mut md = "# ".to_owned();
    md.push_str(course);
    md.push_str(" 课程大纲\n\n");
    let ss = &doc.sections;
    let mut all: Vec<usize> = Vec::new();
    let mut i: usize = 0;
    while i < ss.len()
        invariant
            i <= ss.len(),
            md@ == "# "@ + course@ + " 课程大纲\n\n"@ + sections_md(ss@.take(i as int)),
            strictly_increasing(all@),
            forall|x: usize| all@.contains(x) <==> all_refs(ss@.take(i as int)).contains(x),
        decreases ss.len() - i,
    {
        let refs = push_section(&mut md, &ss[i]);
        let ghost a0 = all@;
        add_refs(&mut all, &refs);
        proof {
            assert(ss@.take(i + 1).drop_last() =~= ss@.take(i as int));
            assert(md@ =~= "# "@ + course@ + " 课程大纲\n\n"@ + sections_md(ss@.take(i + 1)));
            let pre = all_refs(ss@.take(i as int));
            let sr = refs@;
            assert(all_refs(ss@.take(i + 1)) == pre + sr);
            assert forall|x: usize| all@.contains(x) <==> (pre + sr).contains(x) by {
                if (pre + sr).contains(x) {
                    let j = choose|j: int| 0 <= j < (pre + sr).len() && #[trigger] (pre + sr)[j] == x;
                    if j < pre.len() {
                        assert(pre[j] == x);
                    } else {
                        assert(sr[j - pre.len()] == x);
                    }
                }
                if pre.contains(x) {
                    let j = choose|j: int| 0 <= j < pre.len() && #[trigger] pre[j] == x;
                    assert((pre + sr)[j] == x);
                }
                if sr.contains(x) {
                    let j = choose|j: int| 0 <= j < sr.len() && #[trigger] sr[j] == x;
                    assert((pre + sr)[pre.len() + j] == x);
                }
            }
        }
        i = i + 1;
    }
    assert(ss@.take(ss.len() as int) =~= ss@);
    let ghost refs_all = all_refs(ss@);
    if all.len() > 0 {
        md.push_str("## 引用来源\n\n");
        push_footnotes(&mut md, &all, titles);
        proof {
            assert(all@.contains(all@[0]));
            assert(refs_all.len() > 0);
            let u = ascending_of(refs_all);
            assert(strictly_increasing(all@) && forall|x: usize| all@.contains(x) <==> refs_all.contains(x));
            lemma_ascending_unique(u, all@);
        }
    } else {
        proof {
            if refs_all.len() > 0 {
                assert(refs_all.contains(refs_all[0]));
                assert(all@.contains(refs_all[0]));
            }
        }
    }
    md
}

// ---------------------------------------------------------------------------
// The outline as an indented tree of lines
// ---------------------------------------------------------------------------
/// The tree lines of one section: its title, its points, and its references.
pub open spec fn section_tree(s: OutlineSectionDoc) -> Seq<Seq<char>> {
    let refs = section_refs(s.refs@);
    seq![
        "├ "@ + match s.title {
            Some(t) => t@,
            None => "(未命名)"@,
        },
    ] + s.points@.map_values(
        |p: Option<String>|
            "│  ├ "@ + match p {
                Some(x) => x@,
                None => Seq::empty(),
            },
    ) + if refs.len() > 0 {
        seq!["│  └ 引用: "@ + ref_marks(refs)]
    } else {
        Seq::empty()
    }
}

pub open spec fn sections_tree(ss: Seq<OutlineSectionDoc>) -> Seq<Seq<char>>
    decreases ss.len(),
{
    if ss.len() == 0 {
        Seq::empty()
    } else {
        sections_tree(ss.drop_last()) + section_tree(ss.last())
    }
}

/// The source lines: a blank line, a heading, then each source once in
/// ascending order with its title.
pub open spec fn tree_footer(ns: Seq<usize>, titles: Seq<(i64, String)>) -> Seq<Seq<char>> {
    seq![Seq::empty(), "引用来源:"@] + ns.map_values(
        |n: usize| "  ["@ + decimal(n as nat) + "] "@ + source_title(titles, n),
    )
}

/// The outline as tree lines.
pub open spec fn outline_tree(doc: OutlineDoc, titles: Seq<(i64, String)>) -> Seq<Seq<char>> {
    let refs = all_refs(doc.sections@);
    sections_tree(doc.sections@) + if refs.len() > 0 {
        tree_footer(ascending_of(refs), titles)
    } else {
        Seq::empty()
    }
}

fn ref_marks_string(refs: &Vec<usize>) -> (r: String)
    ensures
        r@ == ref_marks(refs@),
{
    proof {
        reveal_strlit(" ");
        reveal_strlit("[");
        reveal_strlit("]");
    }
    let mut md = String::new();
    let mut q: usize = 0;
    while q < refs.len()
        invariant
            q <= refs.len(),
            md@ == ref_marks(refs@.take(q as int)),
        decreases refs.len() - q,
    {
        if q > 0 {
            md.push_str(" ");
        }
        md.push_str("[");
        push_decimal(&mut md, refs[q]);
        md.push_str("]");
        proof {
            assert(refs@.take(q + 1).drop_last() =~= refs@.take(q as int));
            if q == 0 {
                assert(refs@.take(1) =~= seq![refs@[0]]);
            }
            assert(md@ =~= ref_marks(refs@.take(q + 1)));
        }
        q = q + 1;
    }
    assert(refs@.take(refs.len() as int) =~= refs@);
    md
}

/// Appends one section's tree lines; returns its source numbers.
fn push_section_tree(lines: &mut Vec<String>, s: &OutlineSectionDoc) -> (refs: Vec<usize>)
    ensures
        views(final(lines)@) == views(old(lines)@) + section_tree(*s),
        refs@ == section_refs(s.refs@),
{
    let mut t = "├ ".to_string();
    match &s.title {
        Some(x) => t.push_str(x.as_str()),
        None => t.push_str("(未命名)"),
    }
    let ghost l0 = views(lines@);
    lines.push(t);
    let ghost l1 = views(lines@);
    proof {
        assert(l1 =~= l0 + seq![t@]);
    }
    let ghost pts = s.points@.map_values(
        |p: Option<String>|
            "│  ├ "@ + match p {
                Some(x) => x@,
                None => Seq::empty(),
            },
    );
    let mut k: usize = 0;
    while k < s.points.len()
        invariant
            k <= s.points.len(),
            views(lines@) == l1 + pts.take(k as int),
            pts.len() == s.points@.len(),
            pts == s.points@.map_values(
                |p: Option<String>|
                    "│  ├ "@ + match p {
                        Some(x) => x@,
                        None => Seq::empty(),
                    },
            ),
        decreases s.points.len() - k,
    {
        let mut line = "│  ├ ".to_string();
        match &s.points[k] {
            Some(p) => line.push_str(p.as_str()),
            None => {},
        }
        let ghost before = views(lines@);
        lines.push(line);
        proof {
            assert(line@ == pts[k as int]);
            assert(views(lines@) =~= before.push(line@));
            assert(pts.take(k + 1) =~= pts.take(k as int).push(pts[k as int]));
        }
        k = k + 1;
    }
    proof {
        assert(pts.take(s.points.len() as int) =~= pts);
    }
    let refs = section_refs_of(&s.refs);
    if refs.len() > 0 {
        let mut r = "│  └ 引用: ".to_string();
        r.push_str(ref_marks_string(&refs).as_str());
        let ghost before = views(lines@);
        lines.push(r);
        proof {
            assert(views(lines@) =~= before.push(r@));
            assert(views(lines@) =~= views(old(lines)@) + section_tree(*s));
        }
    } else {
        proof {
            assert(views(lines@) =~= views(old(lines)@) + section_tree(*s));
        }
    }
    refs
}

/// Renders the outline as an indented tree: "├ title", "│  ├ point" per
/// point, "│  └ 引用: [n] ..." for a section's references; then, when any
/// section refers to sources, a blank line, "引用来源:" and "  [n] title"
/// for each source once, ascending.
pub fn render_outline_tree(doc: &OutlineDoc, titles: &[(i64, String)]) -> (r: Vec<String>)
    ensures
        views(r@) == outline_tree(*doc, titles@),
{
    let mut lines: Vec<String> = Vec::new();
    let ss = &doc.sections;
    let mut all: Vec<usize> = Vec::new();
    let mut i: usize = 0;
    while i < ss.len()
        invariant
            i <= ss.len(),
            views(lines@) == sections_tree(ss@.take(i as int)),
            strictly_increasing(all@),
            forall|x: usize| all@.contains(x) <==> all_refs(ss@.take(i as int)).contains(x),
        decreases ss.len() - i,
    {
        let refs = push_section_tree(&mut lines, &ss[i]);
        add_refs(&mut all, &refs);
        proof {
            assert(ss@.take(i + 1).drop_last() =~= ss@.take(i as int));
            let pre = all_refs(ss@.take(i as int));
            let sr = refs@;
            assert(all_refs(ss@.take(i + 1)) == pre + sr);
            assert forall|x: usize| all@.contains(x) <==> (pre + sr).contains(x) by {
                if (pre + sr).contains(x) {
                    let j = choose|j: int| 0 <= j < (pre + sr).len() && #[trigger] (pre + sr)[j] == x;
                    if j < pre.len() {
                        assert(pre[j] == x);
                    } else {
                        assert(sr[j - pre.len()] == x);
                    }
                }
                if pre.contains(x) {
                    let j = choose|j: int| 0 <= j < pre.len() && #[trigger] pre[j] == x;
                    assert((pre + sr)[j] == x);
                }
                if sr.contains(x) {
                    let j = choose|j: int| 0 <= j < sr.len() && #[trigger] sr[j] == x;
                    assert((pre + sr)[pre.len() + j] == x);
                }
            }
        }
        i = i + 1;
    }
    assert(ss@.take(ss.len() as int) =~= ss@);
    let ghost refs_all = all_refs(ss@);
    if all.len() > 0 {
        let ghost body = views(lines@);
        lines.push(String::new());
        lines.push("引用来源:".to_string());
        let ghost head = views(lines@);
        proof {
            assert(head =~= body + seq![Seq::<char>::empty(), "引用来源:"@]);
        }
        let ghost notes = all@.map_values(
            |n: usize| "  ["@ + decimal(n as nat) + "] "@ + source_title(titles@, n),
        );
        let mut q: usize = 0;
        while q < all.len()
            invariant
                q <= all.len(),
                views(lines@) == head + notes.take(q as int),
                notes == all@.map_values(
                    |n: usize| "  ["@ + decimal(n as nat) + "] "@ + source_title(titles@, n),
                ),
            decreases all.len() - q,
        {
            let n = all[q];
            let mut line = "  [".to_string();
            push_decimal(&mut line, n);
            line.push_str("] ");
            let idx = if n > 0 {
                n - 1
            } else {
                0
            };
            if idx < titles.len() {
                line.push_str(titles[idx].1.as_str());
            } else {
                line.push_str("未知");
            }
            let ghost before = views(lines@);
            lines.push(line);
            proof {
                assert(line@ == notes[q as int]);
                assert(views(lines@) =~= before.push(line@));
                assert(notes.take(q + 1) =~= notes.take(q as int).push(notes[q as int]));
            }
            q = q + 1;
        }
        proof {
            assert(notes.take(all.len() as int) =~= notes);
            assert(all@.contains(all@[0]));
            assert(refs_all.len() > 0);
            let u = ascending_of(refs_all);
            assert(strictly_increasing(all@) && forall|x: usize| all@.contains(x) <==> refs_all.contains(x));
            lemma_ascending_unique(u, all@);
            assert(views(lines@) =~= outline_tree(*doc, titles@));
        }
    } else {
        proof {
            if refs_all.len() > 0 {
                assert(refs_all.contains(refs_all[0]));
                assert(all@.contains(refs_all[0]));
            }
            assert(views(lines@) =~= outline_tree(*doc, titles@));
        }
    }
    lines
}

} // verus!
