//! `/course` and `/review` argument parsing.
//!
//! `/course [-list | <course|all> | -new <name> | -delete <name>]`
//! `/review <course> [concept] [--n count]`
use vstd::prelude::*;
use crate::text::{
    append_chars, chars_eq, chars_of, chars_of_all, join, join_chars, parse_i64, parse_i64_spec, parse_usize, parse_usize_spec, split_ws,
    starts_with, starts_with_chars, string_of, trim, trim_chars, views, vviews, ws_tokens, is_word, lemma_ws_tokens_words, lemma_ws_tokens_join, is_ws, trim_start,
};

verus! {

/// Result of `parse_course_action`.
#[derive(Debug, PartialEq, Eq)]
pub enum CourseAction {
    /// List every course and the current partition.
    List,
    /// Switch to an existing course, or to `all`.
    Switch(String),
    /// Create a course.
    Create(String),
    /// Delete a course (checked to exist and not to be `all`).
    Delete(String),
    /// Switch by id (produced by the list picker).
    SwitchById(i64),
    /// Delete by id (produced by the list picker).
    DeleteById(i64),
    /// Usage error; the message is the help.
    Invalid(String),
}

/// What a `CourseAction` denotes, with strings taken as character sequences.
pub enum CourseActionView {
    List,
    Switch(Seq<char>),
    Create(Seq<char>),
    Delete(Seq<char>),
    SwitchById(i64),
    DeleteById(i64),
    Invalid(Seq<char>),
}

impl View for CourseAction {
    type V = CourseActionView;

    open spec fn view(&self) -> CourseActionView {
        match self {
            CourseAction::List => CourseActionView::List,
            CourseAction::Switch(s) => CourseActionView::Switch(s@),
            CourseAction::Create(s) => CourseActionView::Create(s@),
            CourseAction::Delete(s) => CourseActionView::Delete(s@),
            CourseAction::SwitchById(n) => CourseActionView::SwitchById(*n),
            CourseAction::DeleteById(n) => CourseActionView::DeleteById(*n),
            CourseAction::Invalid(s) => CourseActionView::Invalid(s@),
        }
    }
}

/// A `<...>` token copied from the documentation.
pub open spec fn is_placeholder(t: Seq<char>) -> bool {
    t.len() >= 1 && t[0] == '<' && t[t.len() - 1] == '>'
}

/// `toks` without the placeholder tokens.
pub open spec fn drop_placeholders(toks: Seq<Seq<char>>) -> Seq<Seq<char>>
    decreases toks.len(),
{
    if toks.len() == 0 {
        Seq::empty()
    } else {
        let prev = drop_placeholders(toks.drop_last());
        if is_placeholder(toks.last()) {
            prev
        } else {
            prev.push(toks.last())
        }
    }
}

/// Dropping placeholders keeps words, and leaves none.
proof fn lemma_drop_placeholders_words(toks: Seq<Seq<char>>)
    requires
        forall|k: int| 0 <= k < toks.len() ==> is_word(#[trigger] toks[k]),
    ensures
        forall|k: int|
            0 <= k < drop_placeholders(toks).len() ==> is_word(#[trigger] drop_placeholders(toks)[k])
                && !is_placeholder(drop_placeholders(toks)[k]),
    decreases toks.len(),
{
    if toks.len() > 0 {
        let prev = toks.drop_last();
        assert forall|k: int| 0 <= k < prev.len() implies is_word(#[trigger] prev[k]) by {
            assert(prev[k] == toks[k]);
        }
        lemma_drop_placeholders_words(prev);
        assert(is_word(toks[toks.len() - 1]));
        let d = drop_placeholders(prev);
        let r = drop_placeholders(toks);
        if !is_placeholder(toks.last()) {
            assert forall|k: int| 0 <= k < r.len() implies is_word(#[trigger] r[k]) && !is_placeholder(r[k]) by {
                if k < d.len() {
                    assert(r[k] == d[k]);
                } else {
                    assert(r[k] == toks.last());
                }
            }
        }
    }
}

/// Without placeholders, dropping them changes nothing.
proof fn lemma_drop_placeholders_none(toks: Seq<Seq<char>>)
    requires
        forall|k: int| 0 <= k < toks.len() ==> !is_placeholder(#[trigger] toks[k]),
    ensures
        drop_placeholders(toks) == toks,
    decreases toks.len(),
{
    if toks.len() > 0 {
        let prev = toks.drop_last();
        assert forall|k: int| 0 <= k < prev.len() implies !is_placeholder(#[trigger] prev[k]) by {
            assert(prev[k] == toks[k]);
        }
        lemma_drop_placeholders_none(prev);
        assert(!is_placeholder(toks[toks.len() - 1]));
        assert(prev.push(toks.last()) =~= toks);
    }
}

/// Stripping placeholders twice is stripping them once: the result is
/// already its own words joined by single spaces, none a placeholder.
pub proof fn law_strip_twice_is_strip_once(arg: Seq<char>)
    ensures
        strip_placeholders_spec(strip_placeholders_spec(arg)) == strip_placeholders_spec(arg),
{
    let toks = drop_placeholders(ws_tokens(arg));
    lemma_ws_tokens_words(arg);
    lemma_drop_placeholders_words(ws_tokens(arg));
    lemma_ws_tokens_join(toks);
    lemma_drop_placeholders_none(toks);
}

pub open spec fn usage_course() -> Seq<char> {
    "用法: /course [-list | <课程|all> | -new <名> | -delete <名>]"@
}

pub open spec fn usage_new() -> Seq<char> {
    "用法: /course -new <课程名>"@
}

pub open spec fn usage_delete() -> Seq<char> {
    "用法: /course -delete <课程名>"@
}

pub open spec fn cannot_delete_all() -> Seq<char> {
    "all 是全局分区，不能删除"@
}

pub open spec fn bad_id_msg(id: Seq<char>) -> Seq<char> {
    "非法课程 id `"@ + id + "`"@
}

pub open spec fn unknown_delete_msg(name: Seq<char>) -> Seq<char> {
    "未知课程 `"@ + name + "`，无法删除"@
}

/// `all` followed by the known courses, comma separated.
pub open spec fn available(known: Seq<Seq<char>>) -> Seq<char> {
    join(seq!["all"@] + known, ", "@)
}

pub open spec fn unknown_switch_msg(name: Seq<char>, known: Seq<Seq<char>>) -> Seq<char> {
    "未知课程 `"@ + name + "`。可用: "@ + available(known) + "，或 /course -new <名> 新建"@
}

pub open spec fn id_action(id: Seq<char>, delete: bool) -> CourseActionView {
    match parse_i64_spec(id) {
        Some(n) => if n > 0 {
            if delete {
                CourseActionView::DeleteById(n)
            } else {
                CourseActionView::SwitchById(n)
            }
        } else {
            CourseActionView::Invalid(bad_id_msg(id))
        },
        None => CourseActionView::Invalid(bad_id_msg(id)),
    }
}

/// The meaning of `/course <arg>` given the known course names.
pub open spec fn course_action_spec(arg: Seq<char>, known: Seq<Seq<char>>) -> CourseActionView {
    let a = trim(arg);
    if a.len() == 0 || a == "-list"@ {
        CourseActionView::List
    } else {
        let toks = drop_placeholders(ws_tokens(a));
        if toks.len() == 0 {
            CourseActionView::Invalid(usage_course())
        } else if toks.len() == 2 && toks[0] == "--id"@ {
            id_action(toks[1], false)
        } else if toks.len() == 3 && toks[0] == "-delete"@ && toks[1] == "--id"@ {
            id_action(toks[2], true)
        } else if toks[0] == "-new"@ {
            if toks.len() > 1 {
                CourseActionView::Create(join(toks.skip(1), " "@))
            } else {
                CourseActionView::Invalid(usage_new())
            }
        } else if toks[0] == "-delete"@ {
            if toks.len() > 1 {
                let name = join(toks.skip(1), " "@);
                if name == "all"@ {
                    CourseActionView::Invalid(cannot_delete_all())
                } else if known.contains(name) {
                    CourseActionView::Delete(name)
                } else {
                    CourseActionView::Invalid(unknown_delete_msg(name))
                }
            } else {
                CourseActionView::Invalid(usage_delete())
            }
        } else {
            let name = join(toks, " "@);
            if name == "all"@ {
                CourseActionView::Switch("all"@)
            } else if known.contains(name) {
                CourseActionView::Switch(name)
            } else {
                CourseActionView::Invalid(unknown_switch_msg(name, known))
            }
        }
    }
}

/// Whether `name` is one of `known`.
fn is_known(known: &Vec<Vec<char>>, name: &Vec<char>) -> (r: bool)
    ensures
        r == vviews(known@).contains(name@),
{
    let mut i: usize = 0;
    while i < known.len()
        invariant
            i <= known.len(),
            forall|j: int| 0 <= j < i ==> vviews(known@)[j] != name@,
        decreases known.len() - i,
    {
        if chars_eq(known[i].as_slice(), name.as_slice()) {
            assert(vviews(known@)[i as int] == name@);
            return true;
        }
        i = i + 1;
    }
    false
}

/// The tokens of `toks` that are not placeholders.
pub fn without_placeholders(toks: &Vec<Vec<char>>) -> (r: Vec<Vec<char>>)
    ensures
        vviews(r@) == drop_placeholders(vviews(toks@)),
{
    let mut r: Vec<Vec<char>> = Vec::new();
    let mut i: usize = 0;
    while i < toks.len()
        invariant
            i <= toks.len(),
            vviews(r@) == drop_placeholders(vviews(toks@).take(i as int)),
        decreases toks.len() - i,
    {
        let t = &toks[i];
        let ghost pre = vviews(toks@).take(i as int);
        assert(vviews(toks@).take(i + 1).drop_last() =~= pre);
        assert(vviews(toks@).take(i + 1).last() == t@);
        let ph = t.len() >= 1 && t[0] == '<' && t[t.len() - 1] == '>';
        if !ph {
            r.push(t.clone());
            assert(vviews(r@) =~= drop_placeholders(pre).push(t@));
        }
        i = i + 1;
    }
    assert(vviews(toks@).take(toks.len() as int) =~= vviews(toks@));
    r
}

/// Whitespace tokens of `arg` with the `<...>` placeholders dropped.
pub fn placeholder_free_tokens(arg: &[char]) -> (r: Vec<Vec<char>>)
    ensures
        vviews(r@) == drop_placeholders(ws_tokens(arg@)),
{
    let toks = split_ws(arg);
    without_placeholders(&toks)
}

/// Command-argument normalisation: the `<...>` placeholder tokens copied
/// from the documentation are dropped, the other tokens joined by one space.
pub open spec fn strip_placeholders_spec(arg: Seq<char>) -> Seq<char> {
    join(drop_placeholders(ws_tokens(arg)), " "@)
}

/// Drops the `<...>` placeholder tokens of a command argument (a placeholder
/// has no meaning in any argument); the other tokens are kept, in order,
/// separated by one space.
pub fn strip_placeholder_tokens(arg: &str) -> (r: String)
    ensures
        r@ == strip_placeholders_spec(arg@),
{
    let cs = chars_of(arg);
    let toks = placeholder_free_tokens(cs.as_slice());
    let sep = chars_of(" ");
    proof {
        reveal_strlit(" ");
    }
    let joined = join_chars(toks.as_slice(), sep.as_slice());
    string_of(joined.as_slice())
}

/// A `String` holding the literal `s`.
pub fn owned(s: &str) -> (r: String)
    ensures
        r@ == s@,
{
    s.to_owned()
}

/// `all` and the known courses joined with `, `.
fn available_exec(known: &Vec<Vec<char>>) -> (r: Vec<char>)
    ensures
        r@ == available(vviews(known@)),
{
    let mut names: Vec<Vec<char>> = Vec::new();
    names.push(chars_of("all"));
    let mut i: usize = 0;
    while i < known.len()
        invariant
            i <= known.len(),
            names.len() == i + 1,
            vviews(names@) == seq!["all"@] + vviews(known@).take(i as int),
        decreases known.len() - i,
    {
        let c = known[i].clone();
        assert(c@ == vviews(known@)[i as int]);
        let ghost n0 = vviews(names@);
        names.push(c);
        assert(vviews(names@) =~= n0.push(c@));
        i = i + 1;
        assert(vviews(names@) =~= seq!["all"@] + vviews(known@).take(i as int));
    }
    assert(vviews(known@).take(known.len() as int) =~= vviews(known@));
    join_chars(&names, &chars_of(", "))
}

fn id_action_exec(id: &Vec<char>, delete: bool) -> (r: CourseAction)
    ensures
        r@ == id_action(id@, delete),
{
    match parse_i64(id.as_slice()) {
        Some(n) => {
            if n > 0 {
                if delete {
                    return CourseAction::DeleteById(n);
                } else {
                    return CourseAction::SwitchById(n);
                }
            }
        },
        None => {},
    }
    let mut m = owned("非法课程 id `");
    append_chars(&mut m, id.as_slice());
    m.push_str("`");
    CourseAction::Invalid(m)
}

/// Parses `/course`.  Two rules, no state: `<...>` placeholder tokens are
/// dropped unconditionally; the tokens after a flag are joined again into
/// one (possibly multi-word) name, and a switch matches the whole name
/// against the known courses exactly.
pub fn parse_course_action(arg: &str, known: &[String]) -> (r: CourseAction)
    ensures
        r@ == course_action_spec(arg@, views(known@)),
{
    let ac = chars_of(arg);
    let a = trim_chars(&ac);
    if a.len() == 0 || chars_eq(&a, &chars_of("-list")) {
        return CourseAction::List;
    }
    let kn = chars_of_all(known);
    let toks = placeholder_free_tokens(&a);
    if toks.len() == 0 {
        return CourseAction::Invalid(owned("用法: /course [-list | <课程|all> | -new <名> | -delete <名>]"));
    }
    let is_id0 = chars_eq(&toks[0], &chars_of("--id"));
    if toks.len() == 2 && is_id0 {
        return id_action_exec(&toks[1], false);
    }
    let is_del0 = chars_eq(&toks[0], &chars_of("-delete"));
    if toks.len() == 3 && is_del0 && chars_eq(&toks[1], &chars_of("--id")) {
        return id_action_exec(&toks[2], true);
    }
    let space = chars_of(" ");
    if chars_eq(&toks[0], &chars_of("-new")) {
        if toks.len() > 1 {
            let rest = toks.as_slice().split_at(1).1;
            assert(vviews(rest@) =~= vviews(toks@).skip(1));
            let name = join_chars(rest, &space);
            return CourseAction::Create(string_of(&name));
        } else {
            return CourseAction::Invalid(owned("用法: /course -new <课程名>"));
        }
    }
    if is_del0 {
        if toks.len() > 1 {
            let rest = toks.as_slice().split_at(1).1;
            assert(vviews(rest@) =~= vviews(toks@).skip(1));
            let name = join_chars(rest, &space);
            if chars_eq(&name, &chars_of("all")) {
                return CourseAction::Invalid(owned("all 是全局分区，不能删除"));
            } else if is_known(&kn, &name) {
                return CourseAction::Delete(string_of(&name));
            } else {
                let mut m = owned("未知课程 `");
                append_chars(&mut m, &name);
                m.push_str("`，无法删除");
                return CourseAction::Invalid(m);
            }
        } else {
            return CourseAction::Invalid(owned("用法: /course -delete <课程名>"));
        }
    }
    let name = join_chars(&toks, &space);
    if chars_eq(&name, &chars_of("all")) {
        CourseAction::Switch(owned("all"))
    } else if is_known(&kn, &name) {
        CourseAction::Switch(string_of(&name))
    } else {
        let mut m = owned("未知课程 `");
        append_chars(&mut m, &name);
        m.push_str("`。可用: ");
        append_chars(&mut m, &available_exec(&kn));
        m.push_str("，或 /course -new <名> 新建");
        CourseAction::Invalid(m)
    }
}

// ---------------------------------------------------------------------------
// /review
// ---------------------------------------------------------------------------
/// Result of `parse_review_action`.
#[derive(Debug, PartialEq, Eq)]
pub struct ReviewSpec {
    pub course: String,
    /// Concept keywords (the course name itself when none are given).
    pub scope: String,
    pub n: usize,
}

/// Reads the `--n <count>` flag and the free words of `/review`, left to
/// right: `--n` takes the next token as the count when it is a positive
/// integer (the token is consumed either way); other `--` flags are
/// ignored; every other token is a word.
pub open spec fn scan_review(toks: Seq<Seq<char>>, n: usize, words: Seq<Seq<char>>) -> (
    usize,
    Seq<Seq<char>>,
)
    decreases toks.len(),
{
    if toks.len() == 0 {
        (n, words)
    } else if toks[0] == "--n"@ {
        if toks.len() >= 2 {
            let n2 = match parse_usize_spec(toks[1]) {
                Some(k) => if k > 0 {
                    k
                } else {
                    n
                },
                None => n,
            };
            scan_review(toks.skip(2), n2, words)
        } else {
            (n, words)
        }
    } else if starts_with(toks[0], "--"@) {
        scan_review(toks.skip(1), n, words)
    } else {
        scan_review(toks.skip(1), n, words.push(toks[0]))
    }
}

/// Course name `cn` heads `rest`: equal to it, or followed by a space.
pub open spec fn heads(rest: Seq<char>, cn: Seq<char>) -> bool {
    cn == rest || starts_with(rest, cn.push(' '))
}

/// The longest known course heading `rest` (the last one among equals).
pub open spec fn longest_match(rest: Seq<char>, known: Seq<Seq<char>>) -> Option<Seq<char>>
    decreases known.len(),
{
    if known.len() == 0 {
        None
    } else {
        let prev = longest_match(rest, known.drop_last());
        let cn = known.last();
        if heads(rest, cn) && (prev is None || cn.len() >= prev->0.len()) {
            Some(cn)
        } else {
            prev
        }
    }
}

pub open spec fn usage_review() -> Seq<char> {
    "用法: /review <课程名> [概念关键词] [--n 数量]"@
}

pub open spec fn review_unknown_msg(rest: Seq<char>, known: Seq<Seq<char>>) -> Seq<char> {
    "课程 `"@ + rest + "` 不存在。可用: "@ + available(known)
}

/// The meaning of `/review <arg>`: `Ok((course, scope, n))` or the error text.
pub open spec fn review_action_spec(arg: Seq<char>, known: Seq<Seq<char>>) -> Result<
    (Seq<char>, Seq<char>, usize),
    Seq<char>,
> {
    let (n, words) = scan_review(ws_tokens(arg), 5, Seq::empty());
    let rest = join(words, " "@);
    if rest.len() == 0 {
        Err(usage_review())
    } else {
        match longest_match(rest, known) {
            Some(course) => {
                let s = trim(rest.skip(course.len() as int));
                Ok((course, if s.len() == 0 {
                    course
                } else {
                    s
                }, n))
            },
            None => Err(review_unknown_msg(rest, known)),
        }
    }
}

proof fn lemma_longest_match_heads(rest: Seq<char>, known: Seq<Seq<char>>)
    ensures
        longest_match(rest, known) matches Some(c) ==> heads(rest, c) && c.len() <= rest.len(),
    decreases known.len(),
{
    if known.len() > 0 {
        lemma_longest_match_heads(rest, known.drop_last());
    }
}

/// `w` is the whole of `rest`, or its first word-group: `rest` begins
/// with `w` followed by a space.
pub open spec fn leads_as_word(rest: Seq<char>, w: Seq<char>) -> bool {
    rest == w || (w.len() < rest.len() && rest.subrange(0, w.len() as int) == w && rest[w.len() as int] == ' ')
}

proof fn lemma_heads_leads(rest: Seq<char>, w: Seq<char>)
    ensures
        heads(rest, w) <==> leads_as_word(rest, w),
{
    if starts_with(rest, w.push(' ')) {
        let p = rest.subrange(0, w.len() as int + 1);
        assert(p[w.len() as int] == ' ');
        assert(rest.subrange(0, w.len() as int) =~= p.subrange(0, w.len() as int));
        assert(p.subrange(0, w.len() as int) =~= w);
    }
    if w.len() < rest.len() && rest.subrange(0, w.len() as int) == w && rest[w.len() as int] == ' ' {
        assert(rest.subrange(0, w.len() as int + 1) =~= w.push(' '));
    }
}

/// What `longest_match` picks: a known course heading `rest`, at least as
/// long as every other; none when no known course heads it.
proof fn lemma_longest_match_props(rest: Seq<char>, known: Seq<Seq<char>>)
    ensures
        longest_match(rest, known) matches Some(c) ==> {
            &&& known.contains(c)
            &&& heads(rest, c)
            &&& forall|i: int| 0 <= i < known.len() && heads(rest, #[trigger] known[i]) ==> known[i].len() <= c.len()
        },
        longest_match(rest, known) is None ==> forall|i: int| 0 <= i < known.len() ==> !heads(rest, #[trigger] known[i]),
    decreases known.len(),
{
    if known.len() > 0 {
        let pre = known.drop_last();
        lemma_longest_match_props(rest, pre);
        assert forall|i: int| 0 <= i < pre.len() implies #[trigger] pre[i] == known[i] by {}
        assert(known[known.len() - 1] == known.last());
        match longest_match(rest, known) {
            Some(c) => {
                if longest_match(rest, pre) == Some(c) && !(heads(rest, known.last()) && (longest_match(rest, pre) is None
                    || known.last().len() >= c.len())) {
                    let j = choose|j: int| 0 <= j < pre.len() && pre[j] == c;
                    assert(known[j] == c);
                } else {
                    assert(c == known.last());
                }
                assert forall|i: int| 0 <= i < known.len() && heads(rest, #[trigger] known[i]) implies known[i].len()
                    <= c.len() by {
                    if i < pre.len() {
                        assert(pre[i] == known[i]);
                    }
                }
            },
            None => {
                assert forall|i: int| 0 <= i < known.len() implies !heads(rest, #[trigger] known[i]) by {
                    if i < pre.len() {
                        assert(pre[i] == known[i]);
                    }
                }
            },
        }
    }
}

proof fn lemma_trim_space_first(u: Seq<char>)
    requires
        u.len() > 0,
        u[0] == ' ',
    ensures
        trim(u) == trim(u.drop_first()),
{
    assert(is_ws(u[0]));
    assert(trim_start(u) == trim_start(u.drop_first()));
}

/// The count that `scan_review` reads stays positive.
proof fn lemma_scan_review_positive(toks: Seq<Seq<char>>, n: usize, words: Seq<Seq<char>>)
    requires
        n > 0,
    ensures
        scan_review(toks, n, words).0 > 0,
    decreases toks.len(),
{
    if toks.len() > 0 {
        if toks[0] == "--n"@ {
            if toks.len() >= 2 {
                let n2 = match parse_usize_spec(toks[1]) {
                    Some(k) => if k > 0 {
                        k
                    } else {
                        n
                    },
                    None => n,
                };
                lemma_scan_review_positive(toks.skip(2), n2, words);
            }
        } else if starts_with(toks[0], "--"@) {
            lemma_scan_review_positive(toks.skip(1), n, words);
        } else {
            lemma_scan_review_positive(toks.skip(1), n, words.push(toks[0]));
        }
    }
}

/// `/review` picks its course as a whole leading word-group of the free
/// words `rest`: the course is known and is all of `rest` or is followed
/// there by a space (a known name that is only the start of a longer word
/// is not a match), and it is the longest such known name.  When no known
/// name leads `rest` that way, the answer is the unknown-course error.
pub proof fn law_review_course_is_a_whole_leading_word(arg: Seq<char>, known: Seq<Seq<char>>)
    ensures
        ({
            let rest = join(scan_review(ws_tokens(arg), 5, Seq::empty()).1, " "@);
            &&& review_action_spec(arg, known) matches Ok(t) ==> {
                &&& t.2 > 0
                &&& t.1 == (if rest == t.0 || trim(rest.skip(t.0.len() as int + 1)).len() == 0 {
                    t.0
                } else {
                    trim(rest.skip(t.0.len() as int + 1))
                })
                &&& known.contains(t.0)
                &&& leads_as_word(rest, t.0)
                &&& forall|i: int|
                    0 <= i < known.len() && leads_as_word(rest, #[trigger] known[i]) ==> known[i].len() <= t.0.len()
            }
            &&& (rest.len() > 0 && forall|i: int| 0 <= i < known.len() ==> !leads_as_word(rest, #[trigger] known[i]))
                ==> review_action_spec(arg, known) == Err::<(Seq<char>, Seq<char>, usize), Seq<char>>(
                review_unknown_msg(rest, known),
            )
            &&& (rest.len() > 0 && exists|i: int| 0 <= i < known.len() && leads_as_word(rest, #[trigger] known[i]))
                ==> review_action_spec(arg, known) is Ok
        }),
{
    let rest = join(scan_review(ws_tokens(arg), 5, Seq::empty()).1, " "@);
    lemma_scan_review_positive(ws_tokens(arg), 5, Seq::empty());
    lemma_longest_match_props(rest, known);
    assert forall|i: int| 0 <= i < known.len() implies (heads(rest, #[trigger] known[i]) <==> leads_as_word(
        rest,
        known[i],
    )) by {
        lemma_heads_leads(rest, known[i]);
    }
    if let Some(c) = longest_match(rest, known) {
        lemma_heads_leads(rest, c);
        if rest.len() > 0 {
            if rest == c {
                assert(rest.skip(c.len() as int) =~= Seq::<char>::empty());
                assert(trim(Seq::<char>::empty()) =~= Seq::<char>::empty());
            } else {
                lemma_trim_space_first(rest.skip(c.len() as int));
                assert(rest.skip(c.len() as int).drop_first() =~= rest.skip(c.len() as int + 1));
            }
        }
    }
}

fn heads_exec(rest: &Vec<char>, cn: &Vec<char>) -> (r: bool)
    ensures
        r == heads(rest@, cn@),
{
    if chars_eq(rest, cn) {
        return true;
    }
    let mut p = cn.clone();
    p.push(' ');
    starts_with_chars(rest, &p)
}

/// Parses `/review <course> [concept] [--n count]`.  Course and concept are
/// free text, so the `--n` flag is taken out first and the remaining words
/// are matched against the known courses by longest prefix; what follows
/// the course is the concept.
pub fn parse_review_action(arg: &str, known: &[String]) -> (r: Result<ReviewSpec, String>)
    ensures
        match r {
            Ok(rs) => review_action_spec(arg@, views(known@)) == Ok::<
                (Seq<char>, Seq<char>, usize),
                Seq<char>,
            >((rs.course@, rs.scope@, rs.n)),
            Err(e) => review_action_spec(arg@, views(known@)) == Err::<
                (Seq<char>, Seq<char>, usize),
                Seq<char>,
            >(e@),
        },
{
    let ac = chars_of(arg);
    let toks = split_ws(&ac);
    let flag_n = chars_of("--n");
    let dash2 = chars_of("--");
    let mut n: usize = 5;
    let mut words: Vec<Vec<char>> = Vec::new();
    let mut i: usize = 0;
    let ghost all = vviews(toks@);
    assert(all.skip(0) =~= all);
    assert(vviews(words@) =~= Seq::<Seq<char>>::empty());
    while i < toks.len()
        invariant
            i <= toks.len(),
            all == vviews(toks@),
            flag_n@ == "--n"@,
            dash2@ == "--"@,
            scan_review(all, 5, Seq::empty()) == scan_review(all.skip(i as int), n, vviews(words@)),
        decreases toks.len() - i,
    {
        let t = &toks[i];
        let ghost cur = all.skip(i as int);
        assert(cur[0] == t@);
        if chars_eq(t, &flag_n) {
            if i + 1 < toks.len() {
                assert(cur[1] == toks@[i + 1]@);
                assert(cur.skip(2) =~= all.skip(i + 2));
                match parse_usize(toks[i + 1].as_slice()) {
                    Some(k) => {
                        if k > 0 {
                            n = k;
                        }
                    },
                    None => {},
                }
                i = i + 2;
            } else {
                assert(all.skip(toks.len() as int) =~= Seq::<Seq<char>>::empty());
                i = toks.len();
                assert(scan_review(cur, n, vviews(words@)) == (n, vviews(words@)));
                assert(scan_review(all.skip(i as int), n, vviews(words@)) == (n, vviews(words@)));
            }
        } else if starts_with_chars(t, &dash2) {
            assert(cur.skip(1) =~= all.skip(i + 1));
            i = i + 1;
        } else {
            assert(cur.skip(1) =~= all.skip(i + 1));
            let ghost w0 = vviews(words@);
            words.push(t.clone());
            assert(vviews(words@) =~= w0.push(t@));
            i = i + 1;
        }
    }
    assert(all.skip(toks.len() as int) =~= Seq::<Seq<char>>::empty());
    let rest = join_chars(&words, &chars_of(" "));
    let kn = chars_of_all(known);
    if rest.len() == 0 {
        return Err(owned("用法: /review <课程名> [概念关键词] [--n 数量]"));
    }
    // longest known course heading `rest`
    let mut hit: Option<usize> = None;
    let mut j: usize = 0;
    while j < kn.len()
        invariant
            j <= kn.len(),
            match hit {
                Some(h) => h < j && longest_match(rest@, vviews(kn@).take(j as int)) == Some(
                    kn@[h as int]@,
                ),
                None => longest_match(rest@, vviews(kn@).take(j as int)) is None,
            },
        decreases kn.len() - j,
    {
        let ghost pre = vviews(kn@).take(j as int);
        assert(vviews(kn@).take(j + 1).drop_last() =~= pre);
        assert(vviews(kn@).take(j + 1).last() == kn@[j as int]@);
        if heads_exec(&rest, &kn[j]) {
            match hit {
                Some(h) => {
                    if kn[j].len() >= kn[h].len() {
                        hit = Some(j);
                    }
                },
                None => {
                    hit = Some(j);
                },
            }
        }
        j = j + 1;
    }
    assert(vviews(kn@).take(kn.len() as int) =~= vviews(kn@));
    match hit {
        Some(h) => {
            let course = &kn[h];
            let mut tail: Vec<char> = Vec::new();
            let mut k: usize = course.len();
            proof {
                lemma_longest_match_heads(rest@, vviews(kn@));
            }
            while k < rest.len()
                invariant
                    course.len() <= k <= rest.len(),
                    tail@ == rest@.subrange(course.len() as int, k as int),
                decreases rest.len() - k,
            {
                tail.push(rest[k]);
                k = k + 1;
                assert(tail@ =~= rest@.subrange(course.len() as int, k as int));
            }
            assert(tail@ =~= rest@.skip(course.len() as int));
            let s = trim_chars(&tail);
            let scope = if s.len() == 0 {
                string_of(course)
            } else {
                string_of(&s)
            };
            Ok(ReviewSpec { course: string_of(course), scope, n })
        },
        None => {
            let mut m = owned("课程 `");
            append_chars(&mut m, &rest);
            m.push_str("` 不存在。可用: ");
            append_chars(&mut m, &available_exec(&kn));
            Err(m)
        },
    }
}

} // verus!
