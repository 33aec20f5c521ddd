//! Reference numbers `[n]` in answers, and the note sources they cite.
use vstd::prelude::*;
use std::collections::HashMap;
use crate::text::{all_digits, chars_of, digit_val, digits_value, is_ascii_digit};

verus! {

broadcast use vstd::std_specs::hash::group_hash_axioms;

/// A reference `[digits]` opens at `k` (the `[`) and closes at `j` (the `]`).
pub open spec fn ref_at(s: Seq<char>, k: int, j: int) -> bool {
    &&& 0 <= k
    &&& k + 1 < j < s.len()
    &&& s[k] == '['
    &&& s[j] == ']'
    &&& all_digits(s.subrange(k + 1, j))
}

/// Some reference opening before `lim` reads `n`.
pub open spec fn cited_before(s: Seq<char>, n: int, lim: int) -> bool {
    exists|k: int, j: int|
        k < lim && #[trigger] ref_at(s, k, j) && digits_value(s.subrange(k + 1, j)) == n
}

/// `s` cites source `n`: a reference in it reads `n`, a positive `usize`
/// (sources are numbered from 1, so `[0]` is no citation).
pub open spec fn cites(s: Seq<char>, n: int) -> bool {
    0 < n <= usize::MAX && cited_before(s, n, s.len() as int)
}

pub open spec fn strictly_increasing(v: Seq<usize>) -> bool {
    forall|a: int, b: int| 0 <= a < b < v.len() ==> v[a] < v[b]
}

/// Adds `n` to an ascending list without duplicates.
fn insert_sorted(v: &mut Vec<usize>, n: usize)
    requires
        strictly_increasing(old(v)@),
    ensures
        strictly_increasing(final(v)@),
        forall|x: usize| final(v)@.contains(x) <==> (old(v)@.contains(x) || x == n),
{
    let mut p: usize = 0;
    while p < v.len() && v[p] < n
        invariant
            p <= v.len(),
            v@ == old(v)@,
            forall|a: int| 0 <= a < p ==> v@[a] < n,
        decreases v.len() - p,
    {
        p = p + 1;
    }
    if p < v.len() && v[p] == n {
        return;
    }
    let ghost pre = v@;
    v.insert(p, n);
    proof {
        pre.insert_ensures(p as int, n);
        let post = v@;
        assert forall|a: int, b: int| 0 <= a < b < post.len() implies post[a] < post[b] by {
            if b < p {
            } else if b == p {
            } else if a < p {
                assert(post[b] == pre[b - 1]);
                assert(pre[b - 1] > n || pre[b - 1] == n) by {
                    if b - 1 > p {
                        assert(pre[p as int] < pre[b - 1]);
                    }
                }
            } else if a == p {
                assert(post[b] == pre[b - 1]);
                if b - 1 > p {
                    assert(pre[p as int] < pre[b - 1]);
                }
            } else {
                assert(post[a] == pre[a - 1]);
                assert(post[b] == pre[b - 1]);
            }
        }
        assert forall|x: usize| post.contains(x) <==> (pre.contains(x) || x == n) by {
            if post.contains(x) {
                let i = choose|i: int| 0 <= i < post.len() && post[i] == x;
                if i < p {
                    assert(pre[i] == x);
                } else if i > p {
                    assert(pre[i - 1] == x);
                }
            }
            if pre.contains(x) {
                let i = choose|i: int| 0 <= i < pre.len() && pre[i] == x;
                if i < p {
                    assert(post[i] == x);
                } else {
                    assert(post[i + 1] == x);
                }
            }
            if x == n {
                assert(post[p as int] == x);
            }
        }
    }
}

fn is_digit_char(c: char) -> (r: bool)
    ensures
        r == is_ascii_digit(c),
{
    let u = c as u32;
    48 <= u && u <= 57
}

/// The end of the run of ASCII digits that starts at `from`, with the value
/// of the run while it fits in `usize`.
fn digit_run(s: &Vec<char>, from: usize) -> (r: (usize, Option<usize>))
    requires
        from <= s.len(),
    ensures
        from <= r.0 <= s.len(),
        all_digits(s@.subrange(from as int, r.0 as int)),
        r.0 == s.len() || !is_ascii_digit(s@[r.0 as int]),
        r.1 == (if digits_value(s@.subrange(from as int, r.0 as int)) <= usize::MAX {
            Some(digits_value(s@.subrange(from as int, r.0 as int)) as usize)
        } else {
            None::<usize>
        }),
{
    let mut j: usize = from;
    let mut val: Option<usize> = Some(0);
    while j < s.len() && is_digit_char(s[j])
        invariant
            from <= j <= s.len(),
            all_digits(s@.subrange(from as int, j as int)),
            val == (if digits_value(s@.subrange(from as int, j as int)) <= usize::MAX {
                Some(digits_value(s@.subrange(from as int, j as int)) as usize)
            } else {
                None::<usize>
            }),
        decreases s.len() - j,
    {
        let c = s[j];
        let d: usize = ((c as u32) - 48) as usize;
        let ghost old_sub = s@.subrange(from as int, j as int);
        let ghost new_sub = s@.subrange(from as int, j + 1);
        assert(new_sub.drop_last() =~= old_sub);
        assert(new_sub.last() == c);
        assert(digits_value(new_sub) == digits_value(old_sub) * 10 + digit_val(c));
        val = match val {
            Some(v) => match v.checked_mul(10) {
                Some(t) => t.checked_add(d),
                None => None,
            },
            None => None,
        };
        j = j + 1;
        assert(all_digits(s@.subrange(from as int, j as int))) by {
            assert forall|i: int| 0 <= i < new_sub.len() implies is_ascii_digit(
                #[trigger] new_sub[i],
            ) by {
                if i < old_sub.len() {
                    assert(new_sub[i] == old_sub[i]);
                }
            }
        }
    }
    (j, val)
}

/// The sources cited in `text`: every `[digits]` that reads a positive
/// `usize`, ascending, each once.
pub fn extract_ref_numbers(text: &str) -> (r: Vec<usize>)
    ensures
        strictly_increasing(r@),
        forall|n: usize| r@.contains(n) <==> cites(text@, n as int),
{
    let s = chars_of(text);
    let mut out: Vec<usize> = Vec::new();
    let mut i: usize = 0;
    while i < s.len()
        invariant
            i <= s.len(),
            s@ == text@,
            strictly_increasing(out@),
            forall|n: usize|
                out@.contains(n) <==> (0 < n && cited_before(s@, n as int, i as int)),
        decreases s.len() - i,
    {
        if s[i] == '[' {
            let (j, val) = digit_run(&s, i + 1);
            let ghost old_out = out@;
            let closes = j > i + 1 && j < s.len() && s[j] == ']';
            let mut added: Option<usize> = None;
            if closes {
                if let Some(n) = val {
                    if n > 0 {
                        insert_sorted(&mut out, n);
                        added = Some(n);
                    }
                }
            }
            proof {
                // A reference opening at i must close at j; none opens inside the digit run.
                assert forall|k: int, jj: int| i <= k < j && #[trigger] ref_at(s@, k, jj) implies k
                    == i && jj == j by {
                    if k > i {
                        assert(s@.subrange(i + 1, j as int)[k - i - 1] == s@[k]);
                    } else {
                        if jj < j {
                            assert(s@.subrange(i + 1, j as int)[jj - i - 1] == s@[jj]);
                        } else if jj > j {
                            assert(s@.subrange(i + 1, jj)[j - i - 1] == s@[j as int]);
                        }
                    }
                }
                assert forall|n: usize|
                    out@.contains(n) <==> (0 < n && cited_before(s@, n as int, j as int)) by {
                    if 0 < n && cited_before(s@, n as int, j as int) {
                        let (k, jj) = choose|k: int, jj: int|
                            k < j && #[trigger] ref_at(s@, k, jj) && digits_value(
                                s@.subrange(k + 1, jj),
                            ) == n;
                        if k >= i {
                            assert(k == i && jj == j);
                            assert(added == Some(n));
                        } else {
                            assert(cited_before(s@, n as int, i as int));
                        }
                    }
                    if out@.contains(n) && !old_out.contains(n) {
                        assert(added == Some(n));
                        assert(ref_at(s@, i as int, j as int));
                    }
                }
            }
            i = j;
        } else {
            proof {
                assert forall|n: usize|
                    out@.contains(n) <==> (0 < n && cited_before(s@, n as int, i + 1)) by {
                    if cited_before(s@, n as int, i + 1) {
                        let (k, jj) = choose|k: int, jj: int|
                            k < i + 1 && #[trigger] ref_at(s@, k, jj) && digits_value(
                                s@.subrange(k + 1, jj),
                            ) == n;
                        assert(k != i);
                    }
                }
            }
            i = i + 1;
        }
    }
    assert(i == s.len());
    assert forall|n: usize| out@.contains(n) <==> cites(text@, n as int) by {
        assert(s@ == text@);
        assert(cited_before(s@, n as int, i as int) == cited_before(text@, n as int, text@.len() as int));
    }
    out
}

// ---------------------------------------------------------------------------
// Citations: which cited numbers a note search of the agent loop returned.
// ---------------------------------------------------------------------------
/// Who wrote a message of the agent loop.
#[derive(Debug, Clone, Copy, PartialEq, Eq, Structural)]
pub enum MessageRole {
    System,
    User,
    Assistant,
    Tool,
}

/// A message of the agent loop, as far as citations read it.
#[derive(Debug, Clone)]
pub struct ChatMessage {
    pub role: MessageRole,
    pub content: Option<String>,
}

pub struct ChatMessageView {
    pub role: MessageRole,
    pub content: Option<Seq<char>>,
}

impl View for ChatMessage {
    type V = ChatMessageView;

    open spec fn view(&self) -> ChatMessageView {
        ChatMessageView {
            role: self.role,
            content: match self.content {
                Some(c) => Some(c@),
                None => None,
            },
        }
    }
}

/// One element of the `results` array of a note search.
#[derive(Debug, Clone)]
pub struct SearchHit {
    pub id: Option<u64>,
    pub title: Option<String>,
    pub section: Option<String>,
}

pub struct SearchHitView {
    pub id: Option<u64>,
    pub title: Option<Seq<char>>,
    pub section: Option<Seq<char>>,
}

pub open spec fn opt_view(o: Option<String>) -> Option<Seq<char>> {
    match o {
        Some(s) => Some(s@),
        None => None,
    }
}

impl View for SearchHit {
    type V = SearchHitView;

    open spec fn view(&self) -> SearchHitView {
        SearchHitView { id: self.id, title: opt_view(self.title), section: opt_view(self.section) }
    }
}

pub open spec fn hit_views(v: Seq<SearchHit>) -> Seq<SearchHitView> {
    v.map_values(|h: SearchHit| h@)
}

pub open spec fn msg_views(v: Seq<ChatMessage>) -> Seq<ChatMessageView> {
    v.map_values(|m: ChatMessage| m@)
}

/// What `serde_json` reads from a tool result: the elements of its
/// `results` array, or `None` when the text is no JSON object with such an array.
pub uninterp spec fn search_hits_of(content: Seq<char>) -> Option<Seq<SearchHitView>>;

/// Parses a tool result with `serde_json::from_str` into a `Value` and takes
/// the elements of its `results` array: for each, `id` where it is an
/// unsigned integer, `title` and `section` where they are strings.  The
/// result is named by `search_hits_of`.
#[verifier::external_body]
fn search_hits(content: &str) -> (r: Option<Vec<SearchHit>>)
    ensures
        r.is_some() == search_hits_of(content@).is_some(),
        r matches Some(v) ==> hit_views(v@) == search_hits_of(content@).unwrap(),
{
    let v: serde_json::Value = serde_json::from_str(content).ok()?;
    let arr = v.get("results")?.as_array()?;
    Some(arr.iter().map(|h| SearchHit {
        id: h.get("id").and_then(|x| x.as_u64()),
        title: h.get("title").and_then(|x| x.as_str()).map(|x| x.to_owned()),
        section: h.get("section").and_then(|x| x.as_str()).map(|x| x.to_owned()),
    }).collect())
}

pub open spec fn or_empty(o: Option<Seq<char>>) -> Seq<char> {
    match o {
        Some(s) => s,
        None => Seq::empty(),
    }
}

/// How a source is shown: "title · section".
pub open spec fn hit_label(h: SearchHitView) -> Seq<char> {
    or_empty(h.title) + " · "@ + or_empty(h.section)
}

/// `m` after recording `hits` in order; a hit without a positive id is skipped.
pub open spec fn add_hits(m: Map<u64, Seq<char>>, hits: Seq<SearchHitView>) -> Map<u64, Seq<char>>
    decreases hits.len(),
{
    if hits.len() == 0 {
        m
    } else {
        let prev = add_hits(m, hits.drop_last());
        let h = hits.last();
        let id: u64 = match h.id {
            Some(x) => x,
            None => 0,
        };
        if id == 0 {
            prev
        } else {
            prev.insert(id, hit_label(h))
        }
    }
}

/// What each message contributes: for a tool message with content, the
/// hits parsed from it (`None` when it does not parse); nothing for others.
pub open spec fn parsed_of(msgs: Seq<ChatMessageView>) -> Seq<Option<Seq<SearchHitView>>> {
    msgs.map_values(
        |m: ChatMessageView|
            if m.role == MessageRole::Tool && m.content is Some {
                search_hits_of(m.content.unwrap())
            } else {
                None
            },
    )
}

pub open spec fn parsed_view(v: Seq<Option<Vec<SearchHit>>>) -> Seq<Option<Seq<SearchHitView>>> {
    v.map_values(
        |o: Option<Vec<SearchHit>>|
            match o {
                Some(h) => Some(hit_views(h@)),
                None => None,
            },
    )
}

/// Source number → label, from parsed note searches in order; of two
/// searches that return the same number the later one counts.
pub open spec fn sources_from(p: Seq<Option<Seq<SearchHitView>>>) -> Map<u64, Seq<char>>
    decreases p.len(),
{
    if p.len() == 0 {
        Map::empty()
    } else {
        let prev = sources_from(p.drop_last());
        match p.last() {
            Some(hits) => add_hits(prev, hits),
            None => prev,
        }
    }
}

/// Source number → label, from the note searches among `msgs`.
pub open spec fn sources_of(msgs: Seq<ChatMessageView>) -> Map<u64, Seq<char>> {
    sources_from(parsed_of(msgs))
}

pub open spec fn labels_match(m: HashMap<u64, String>, sm: Map<u64, Seq<char>>) -> bool {
    &&& m@.dom() == sm.dom()
    &&& forall|k: u64| #[trigger] sm.contains_key(k) ==> m@[k]@ == sm[k]
}

/// The label of a hit.
fn label_of(h: &SearchHit) -> (r: String)
    ensures
        r@ == hit_label(h@),
{
    let mut l = String::new();
    if let Some(t) = &h.title {
        l.push_str(t.as_str());
    }
    l.push_str(" · ");
    if let Some(sec) = &h.section {
        l.push_str(sec.as_str());
    }
    proof {
        reveal_strlit(" · ");
        assert(l@ =~= hit_label(h@));
    }
    l
}

/// The note searches among `msgs`, parsed: one entry per message.
pub fn search_results(msgs: &[ChatMessage]) -> (r: Vec<Option<Vec<SearchHit>>>)
    ensures
        parsed_view(r@) == parsed_of(msg_views(msgs@)),
{
    let mut out: Vec<Option<Vec<SearchHit>>> = Vec::new();
    let mut i: usize = 0;
    while i < msgs.len()
        invariant
            i <= msgs.len(),
            parsed_view(out@) == parsed_of(msg_views(msgs@)).take(i as int),
        decreases msgs.len() - i,
    {
        let m = &msgs[i];
        let parsed = if m.role == MessageRole::Tool {
            match &m.content {
                Some(c) => search_hits(c.as_str()),
                None => None,
            }
        } else {
            None
        };
        let ghost o0 = parsed_view(out@);
        out.push(parsed);
        proof {
            assert(msg_views(msgs@)[i as int] == msgs@[i as int]@);
            assert(parsed_view(out@) =~= o0.push(parsed_of(msg_views(msgs@))[i as int]));
            assert(parsed_of(msg_views(msgs@)).take(i + 1) =~= parsed_of(msg_views(msgs@)).take(
                i as int,
            ).push(parsed_of(msg_views(msgs@))[i as int]));
        }
        i = i + 1;
    }
    proof {
        assert(parsed_of(msg_views(msgs@)).take(msgs.len() as int) =~= parsed_of(msg_views(msgs@)));
    }
    out
}

/// The sources of parsed note searches, by number.
fn collect_sources(parsed: &[Option<Vec<SearchHit>>]) -> (r: HashMap<u64, String>)
    ensures
        labels_match(r, sources_from(parsed_view(parsed@))),
{
    let mut map: HashMap<u64, String> = HashMap::new();
    let mut i: usize = 0;
    while i < parsed.len()
        invariant
            i <= parsed.len(),
            labels_match(map, sources_from(parsed_view(parsed@).take(i as int))),
        decreases parsed.len() - i,
    {
        let ghost pre = parsed_view(parsed@).take(i as int);
        assert(parsed_view(parsed@).take(i + 1).drop_last() =~= pre);
        if let Some(hits) = &parsed[i] {
            assert(parsed_view(parsed@).take(i + 1).last() == Some(hit_views(hits@)));
            let ghost base = sources_from(pre);
            let mut k: usize = 0;
            while k < hits.len()
                invariant
                    k <= hits.len(),
                    labels_match(map, add_hits(base, hit_views(hits@).take(k as int))),
                decreases hits.len() - k,
            {
                let ghost hp = hit_views(hits@).take(k as int);
                assert(hit_views(hits@).take(k + 1).drop_last() =~= hp);
                assert(hit_views(hits@).take(k + 1).last() == hits@[k as int]@);
                let h = &hits[k];
                let id: u64 = match h.id {
                    Some(x) => x,
                    None => 0,
                };
                if id != 0 {
                    let l = label_of(h);
                    map.insert(id, l);
                    proof {
                        let sm = add_hits(base, hit_views(hits@).take(k + 1));
                        assert(map@.dom() =~= sm.dom());
                    }
                }
                k = k + 1;
            }
            assert(hit_views(hits@).take(hits.len() as int) =~= hit_views(hits@));
        } else {
            assert(parsed_view(parsed@).take(i + 1).last() is None);
        }
        i = i + 1;
    }
    assert(parsed_view(parsed@).take(parsed.len() as int) =~= parsed_view(parsed@));
    map
}

/// The sources that `answer` cites, ascending by number: each cited number
/// that one of the parsed note searches returned, with its label.
pub fn citations_from(parsed: &[Option<Vec<SearchHit>>], answer: &str) -> (r: Vec<(usize, String)>)
    ensures
        forall|a: int, b: int| 0 <= a < b < r.len() ==> r[a].0 < r[b].0,
        forall|i: int|
            #![trigger r[i]]
            0 <= i < r.len() ==> {
                let n = r[i].0;
                &&& cites(answer@, n as int)
                &&& sources_from(parsed_view(parsed@)).contains_key(n as u64)
                &&& r[i].1@ == sources_from(parsed_view(parsed@))[n as u64]
            },
        forall|n: usize|
            cites(answer@, n as int) && sources_from(parsed_view(parsed@)).contains_key(n as u64)
                ==> exists|i: int| 0 <= i < r.len() && r[i].0 == n,
{
    let map = collect_sources(parsed);
    let ghost sm = sources_from(parsed_view(parsed@));
    let cited = extract_ref_numbers(answer);
    let mut out: Vec<(usize, String)> = Vec::new();
    let mut i: usize = 0;
    while i < cited.len()
        invariant
            i <= cited.len(),
            labels_match(map, sm),
            strictly_increasing(cited@),
            forall|n: usize| cited@.contains(n) <==> cites(answer@, n as int),
            forall|a: int, b: int| 0 <= a < b < out.len() ==> out[a].0 < out[b].0,
            forall|a: int| #![trigger out[a]] 0 <= a < out.len() ==> exists|c: int| 0 <= c < i && cited@[c] == out[a].0,
            forall|a: int|
                #![trigger out[a]]
                0 <= a < out.len() ==> {
                    let n = out[a].0;
                    &&& cites(answer@, n as int)
                    &&& sm.contains_key(n as u64)
                    &&& out[a].1@ == sm[n as u64]
                },
            forall|c: int|
                0 <= c < i && sm.contains_key(cited@[c] as u64) ==> exists|a: int|
                    0 <= a < out.len() && out[a].0 == cited@[c],
        decreases cited.len() - i,
    {
        let n = cited[i];
        let key: u64 = n as u64;
        assert(cited@.contains(n));
        match map.get(&key) {
            Some(l) => {
                let ghost old_out = out@;
                out.push((n, l.clone()));
                proof {
                    assert forall|a: int, b: int| 0 <= a < b < out.len() implies out[a].0
                        < out[b].0 by {
                        if b == out.len() - 1 && a < b {
                            let c = choose|c: int| 0 <= c < i && cited@[c] == out[a].0;
                        }
                    }
                    assert forall|c: int|
                        0 <= c < i + 1 && sm.contains_key(cited@[c] as u64) implies exists|a: int|
                        0 <= a < out.len() && out[a].0 == cited@[c] by {
                        if c == i {
                            assert(out[out.len() - 1].0 == cited@[c]);
                        } else {
                            let a = choose|a: int| 0 <= a < old_out.len() && old_out[a].0 == cited@[c];
                            assert(out[a].0 == cited@[c]);
                        }
                    }
                    assert forall|a: int| #![trigger out[a]] 0 <= a < out.len() implies exists|c: int|
                        0 <= c < i + 1 && cited@[c] == out[a].0 by {
                        if a == out.len() - 1 {
                            assert(cited@[i as int] == out[a].0);
                        } else {
                            let c = choose|c: int| 0 <= c < i && cited@[c] == old_out[a].0;
                            assert(cited@[c] == out[a].0);
                        }
                    }
                }
            },
            None => {
            },
        }
        i = i + 1;
    }
    proof {
        assert forall|n: usize|
            cites(answer@, n as int) && sm.contains_key(n as u64) implies exists|i: int|
            0 <= i < out.len() && out[i].0 == n by {
            assert(cited@.contains(n));
            let c = choose|c: int| 0 <= c < cited.len() && cited@[c] == n;
        }
    }
    out
}

/// The sources that `answer` cites, ascending by number: each cited number
/// that a note search among `msgs` returned, with its label.
pub fn extract_citations(msgs: &[ChatMessage], answer: &str) -> (r: Vec<(usize, String)>)
    ensures
        forall|a: int, b: int| 0 <= a < b < r.len() ==> r[a].0 < r[b].0,
        forall|i: int|
            #![trigger r[i]]
            0 <= i < r.len() ==> {
                let n = r[i].0;
                &&& cites(answer@, n as int)
                &&& sources_of(msg_views(msgs@)).contains_key(n as u64)
                &&& r[i].1@ == sources_of(msg_views(msgs@))[n as u64]
            },
        forall|n: usize|
            cites(answer@, n as int) && sources_of(msg_views(msgs@)).contains_key(n as u64)
                ==> exists|i: int| 0 <= i < r.len() && r[i].0 == n,
{
    let parsed = search_results(msgs);
    citations_from(&parsed, answer)
}

} // verus!
