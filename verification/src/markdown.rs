//! Markdown rendering into styled, width-wrapped lines.
//!
//! The text is parsed by pulldown-cmark; the events drive a small state
//! machine that collects styled characters in a line buffer and flushes them
//! as lines wrapped by display width.  Headings, paragraphs, list items,
//! bold/italic, inline code and `[n]` references get their styles here;
//! fenced code blocks are highlighted by `highlight`.
use vstd::prelude::*;
use crate::highlight::{highlight_lines, lang_tag, lang_tag_spec, lines_with_endings, Engine, Rgb};
use crate::text::{all_digits, chars_of, is_ascii_digit, string_of};
use pulldown_cmark::{CodeBlockKind, Event, Options, Parser, Tag};
use unicode_width::UnicodeWidthChar;
use MdEvent::{Break, Code, End, Ignored, Start, Text};
use MdTag::{CodeBlock, Emphasis, Heading, Item, List, Other, Paragraph, Strong};

verus! {

/// Semantic colours; the program maps them onto its theme.
#[derive(Debug, Clone, Copy, PartialEq, Eq, Structural)]
pub enum Tint {
    /// Level-1 headings.
    Heading,
    /// Deeper headings.
    SubHeading,
    Body,
    /// `[n]` source references.
    Reference,
    /// Inline code.
    CodeInline,
    /// Code block frames and labels.
    Muted,
    /// A highlighted code token.
    Rgb(u8, u8, u8),
}

/// The style of a piece of text.
#[derive(Debug, Clone, Copy, PartialEq, Eq, Structural)]
pub struct SpanStyle {
    pub fg: Option<Tint>,
    pub bold: bool,
    pub italic: bool,
}

/// A piece of a rendered line.
#[derive(Debug, Clone)]
pub struct StyledSpan {
    pub text: String,
    pub style: SpanStyle,
}

/// A rendered line.
#[derive(Debug, Clone)]
pub struct StyledLine {
    pub spans: Vec<StyledSpan>,
}

/// The emphasis state under which text was pushed: bold, italic, and the
/// colour of an open inline style (inline code, reference).
#[derive(Debug, Clone, Copy, PartialEq, Eq, Structural)]
pub struct StyleState {
    pub bold: bool,
    pub italic: bool,
    pub extra: Option<Tint>,
}

/// The final style of text pushed under `st` in a block styled `base`:
/// bold and italic add to the block's, an inline colour replaces its colour.
pub open spec fn style_of(base: SpanStyle, st: StyleState) -> SpanStyle {
    SpanStyle {
        fg: match st.extra {
            Some(t) => Some(t),
            None => base.fg,
        },
        bold: base.bold || st.bold,
        italic: base.italic || st.italic,
    }
}

// ---------------------------------------------------------------------------
// Display width
// ---------------------------------------------------------------------------
/// What `UnicodeWidthChar::width` gives for a character.
pub uninterp spec fn width_of(c: char) -> Option<usize>;

/// Calls `UnicodeWidthChar::width`: the display width of `c` (`None` for
/// control characters); the result is named by `width_of`.
#[verifier::external_body]
fn char_width(c: char) -> (r: Option<usize>)
    ensures
        r == width_of(c),
{
    UnicodeWidthChar::width(c)
}

/// Columns a character takes (control characters take none).
pub open spec fn cols(c: char) -> int {
    match width_of(c) {
        Some(w) => w as int,
        None => 0,
    }
}

// ---------------------------------------------------------------------------
// Lines as sequences of styled characters
// ---------------------------------------------------------------------------
/// The styled characters of a span.
pub open spec fn span_chars(s: StyledSpan) -> Seq<(char, SpanStyle)> {
    s.text@.map_values(|c: char| (c, s.style))
}

/// The styled characters of a line.
pub open spec fn line_chars(spans: Seq<StyledSpan>) -> Seq<(char, SpanStyle)>
    decreases spans.len(),
{
    if spans.len() == 0 {
        Seq::empty()
    } else {
        line_chars(spans.drop_last()) + span_chars(spans.last())
    }
}

/// Neighbouring characters of the same style share one span, and no span is empty.
pub open spec fn grouped(spans: Seq<StyledSpan>) -> bool {
    &&& forall|i: int| 0 <= i < spans.len() ==> (#[trigger] spans[i]).text@.len() > 0
    &&& forall|i: int| 0 < i < spans.len() ==> (#[trigger] spans[i]).style != spans[i - 1].style
}

pub open spec fn lines_view(ls: Seq<StyledLine>) -> Seq<Seq<(char, SpanStyle)>> {
    ls.map_values(|l: StyledLine| line_chars(l.spans@))
}

/// Wrapping a run of styled characters at `width` columns: a character
/// that would overflow a non-empty line starts the next one; characters of
/// no width never break.  `cur` is the line being filled, `used` its width.
pub open spec fn wrap_from(
    seg: Seq<(char, SpanStyle)>,
    width: int,
    i: int,
    cur: Seq<(char, SpanStyle)>,
    used: int,
) -> Seq<Seq<(char, SpanStyle)>>
    decreases seg.len() - i,
{
    if i < 0 || i >= seg.len() {
        seq![cur]
    } else {
        let cw = cols(seg[i].0);
        if cw > 0 && used + cw > width && used > 0 {
            seq![cur] + wrap_from(seg, width, i + 1, seq![seg[i]], cw)
        } else {
            wrap_from(seg, width, i + 1, cur.push(seg[i]), used + cw)
        }
    }
}

pub open spec fn wrap(seg: Seq<(char, SpanStyle)>, width: int) -> Seq<Seq<(char, SpanStyle)>> {
    wrap_from(seg, width, 0, Seq::empty(), 0)
}

/// The pieces of `s` between `'\n'` characters (one more than there are newlines).
pub open spec fn split_nl(s: Seq<(char, SpanStyle)>) -> Seq<Seq<(char, SpanStyle)>>
    decreases s.len(),
{
    if s.len() == 0 {
        seq![Seq::empty()]
    } else {
        let prev = split_nl(s.drop_last());
        if s.last().0 == '\n' {
            prev.push(Seq::empty())
        } else {
            prev.update(prev.len() - 1, prev.last().push(s.last()))
        }
    }
}

/// The wrapped lines of the pieces of `segs` from `k` on: the first piece
/// always, later ones only when not empty.
pub open spec fn wrap_segments(segs: Seq<Seq<(char, SpanStyle)>>, width: int, k: int) -> Seq<
    Seq<(char, SpanStyle)>,
>
    decreases segs.len() - k,
{
    if k < 0 || k >= segs.len() {
        Seq::empty()
    } else {
        (if k > 0 && segs[k].len() == 0 {
            Seq::empty()
        } else {
            wrap(segs[k], width)
        }) + wrap_segments(segs, width, k + 1)
    }
}

// ---------------------------------------------------------------------------
// The line buffer
// ---------------------------------------------------------------------------
/// Text collected with its emphasis state, flushed as wrapped lines.
pub struct LineBuffer {
    pub spans: Vec<(String, StyleState)>,
    pub bold: bool,
    pub italic: bool,
    pub style_stack: Vec<Tint>,
}

/// The characters of collected text, each with its state.
pub open spec fn stream_of(spans: Seq<(String, StyleState)>) -> Seq<(char, StyleState)>
    decreases spans.len(),
{
    if spans.len() == 0 {
        Seq::empty()
    } else {
        stream_of(spans.drop_last()) + spans.last().0@.map_values(
            |c: char| (c, spans.last().1),
        )
    }
}

/// The characters of `t`, all in state `st`.
pub open spec fn in_state(t: Seq<char>, st: StyleState) -> Seq<(char, StyleState)> {
    t.map_values(|c: char| (c, st))
}

/// The first `']'` of `t`, if any.
pub open spec fn first_close(t: Seq<char>, i: int) -> Option<int>
    decreases t.len() - i,
{
    if i < 0 || i >= t.len() {
        None
    } else if t[i] == ']' {
        Some(i)
    } else {
        first_close(t, i + 1)
    }
}

/// Which characters of `t` belong to a `[n]` reference: a `[` followed by
/// digits up to the first `]` after it.
pub open spec fn ref_mask(t: Seq<char>) -> Seq<bool>
    decreases t.len(),
{
    if t.len() == 0 {
        Seq::empty()
    } else {
        match ref_end(t) {
            Some(e) => if 1 < e < t.len() {
                Seq::new((e + 1) as nat, |k: int| true) + ref_mask(t.skip(e + 1))
            } else {
                seq![false] + ref_mask(t.drop_first())
            },
            None => seq![false] + ref_mask(t.drop_first()),
        }
    }
}

/// Where the reference that opens `t` closes: `t` starts with `[`, its first
/// `]` comes after at least one character, and only digits lie between.
pub open spec fn ref_end(t: Seq<char>) -> Option<int> {
    if t.len() > 0 && t[0] == '[' {
        match first_close(t, 1) {
            Some(e) => if e > 1 && all_digits(t.subrange(1, e)) {
                Some(e)
            } else {
                None
            },
            None => None,
        }
    } else {
        None
    }
}

/// `t` pushed with references marked: reference characters in state `rs`,
/// the others in state `st`.
pub open spec fn with_refs(t: Seq<char>, st: StyleState, rs: StyleState) -> Seq<(char, StyleState)> {
    Seq::new(t.len(), |k: int| (t[k], if ref_mask(t)[k] { rs } else { st }))
}

impl LineBuffer {
    /// The characters collected so far.
    pub open spec fn stream(&self) -> Seq<(char, StyleState)> {
        stream_of(self.spans@)
    }

    /// The state under which text is pushed now.
    pub open spec fn state(&self) -> StyleState {
        StyleState {
            bold: self.bold,
            italic: self.italic,
            extra: if self.style_stack@.len() == 0 {
                None
            } else {
                Some(self.style_stack@.last())
            },
        }
    }

    pub fn new() -> (r: Self)
        ensures
            r.spans@.len() == 0,
            !r.bold && !r.italic,
            r.style_stack@.len() == 0,
    {
        LineBuffer { spans: Vec::new(), bold: false, italic: false, style_stack: Vec::new() }
    }

    /// Drops the collected text (the emphasis state stays).
    pub fn clear(&mut self)
        ensures
            final(self).spans@.len() == 0,
            final(self).bold == old(self).bold,
            final(self).italic == old(self).italic,
            final(self).style_stack@ == old(self).style_stack@,
    {
        self.spans = Vec::new();
    }

    /// Whether no character was collected.
    pub fn is_empty(&self) -> (r: bool)
        ensures
            r == (self.stream().len() == 0),
    {
        let mut i: usize = 0;
        while i < self.spans.len()
            invariant
                i <= self.spans.len(),
                stream_of(self.spans@.take(i as int)).len() == 0,
            decreases self.spans.len() - i,
        {
            assert(self.spans@.take(i + 1).drop_last() =~= self.spans@.take(i as int));
            if !self.spans[i].0.as_str().is_empty() {
                proof {
                    lemma_stream_take_prefix(self.spans@, i + 1);
                }
                return false;
            }
            i = i + 1;
        }
        assert(self.spans@.take(self.spans.len() as int) =~= self.spans@);
        true
    }

    /// Appends `text` in the current state (to the last piece when that has
    /// the same state).
    pub fn push_str(&mut self, text: &str)
        ensures
            final(self).stream() == old(self).stream() + in_state(text@, old(self).state()),
            final(self).spans@.len() > 0,
            final(self).bold == old(self).bold,
            final(self).italic == old(self).italic,
            final(self).style_stack@ == old(self).style_stack@,
    {
        let state = StyleState {
            bold: self.bold,
            italic: self.italic,
            extra: if self.style_stack.len() == 0 {
                None
            } else {
                Some(self.style_stack[self.style_stack.len() - 1])
            },
        };
        let n = self.spans.len();
        if n > 0 && self.spans[n - 1].1 == state {
            let ghost pre = self.spans@;
            let (mut s, st) = self.spans.pop().unwrap();
            s.push_str(text);
            self.spans.push((s, st));
            proof {
                assert(self.spans@.drop_last() =~= pre.drop_last());
                assert(self.spans@.last().0@ == pre.last().0@ + text@);
                assert(self.spans@.last().0@.map_values(|c: char| (c, st)) =~= pre.last().0@.map_values(
                    |c: char| (c, st),
                ) + in_state(text@, state));
            }
        } else {
            let ghost pre = self.spans@;
            self.spans.push((text.to_owned(), state));
            assert(self.spans@.drop_last() =~= pre);
        }
    }

    pub fn toggle_bold(&mut self)
        ensures
            final(self).bold == !old(self).bold,
            final(self).italic == old(self).italic,
            final(self).spans@ == old(self).spans@,
            final(self).style_stack@ == old(self).style_stack@,
    {
        self.bold = !self.bold;
    }

    pub fn toggle_italic(&mut self)
        ensures
            final(self).italic == !old(self).italic,
            final(self).bold == old(self).bold,
            final(self).spans@ == old(self).spans@,
            final(self).style_stack@ == old(self).style_stack@,
    {
        self.italic = !self.italic;
    }

    /// Opens an inline colour.
    pub fn push_style(&mut self, t: Tint)
        ensures
            final(self).style_stack@ == old(self).style_stack@.push(t),
            final(self).spans@ == old(self).spans@,
            final(self).bold == old(self).bold,
            final(self).italic == old(self).italic,
    {
        self.style_stack.push(t);
    }

    /// Closes the last inline colour.
    pub fn pop_style(&mut self)
        ensures
            final(self).style_stack@ == (if old(self).style_stack@.len() == 0 {
                old(self).style_stack@
            } else {
                old(self).style_stack@.drop_last()
            }),
            final(self).spans@ == old(self).spans@,
            final(self).bold == old(self).bold,
            final(self).italic == old(self).italic,
    {
        if self.style_stack.len() > 0 {
            self.style_stack.pop();
        }
    }

    /// A line break inside the block.
    pub fn newline(&mut self)
        ensures
            final(self).stream() == old(self).stream() + seq![('\n', old(self).state())],
            final(self).spans@.len() > 0,
            final(self).bold == old(self).bold,
            final(self).italic == old(self).italic,
            final(self).style_stack@ == old(self).style_stack@,
    {
        self.push_str("\n");
        proof {
            reveal_strlit("\n");
            assert(in_state("\n"@, old(self).state()) =~= seq![('\n', old(self).state())]);
        }
    }
}

proof fn lemma_stream_take_prefix(spans: Seq<(String, StyleState)>, n: int)
    requires
        0 < n <= spans.len(),
        spans[n - 1].0@.len() > 0,
    ensures
        stream_of(spans).len() > 0,
    decreases spans.len(),
{
    if n == spans.len() {
    } else {
        lemma_stream_take_prefix(spans.drop_last(), n);
    }
}

/// The state of reference text pushed in state `st`.
pub open spec fn ref_state(st: StyleState) -> StyleState {
    StyleState { extra: Some(Tint::Reference), ..st }
}

proof fn lemma_mask_len(t: Seq<char>)
    ensures
        ref_mask(t).len() == t.len(),
    decreases t.len(),
{
    if t.len() > 0 {
        match ref_end(t) {
            Some(e) => if 1 < e < t.len() {
                lemma_mask_len(t.skip(e + 1));
            } else {
                lemma_mask_len(t.drop_first());
            },
            None => lemma_mask_len(t.drop_first()),
        }
    }
}

proof fn lemma_refs_plain_head(u: Seq<char>, st: StyleState, rs: StyleState)
    requires
        u.len() > 0,
        ref_end(u) is None || u[0] != '[',
    ensures
        with_refs(u, st, rs) == seq![(u[0], st)] + with_refs(u.drop_first(), st, rs),
{
    if u[0] != '[' {
        assert(ref_end(u) is None);
    }
    let d = u.drop_first();
    lemma_mask_len(u);
    lemma_mask_len(d);
    assert(ref_mask(u) == seq![false] + ref_mask(d));
    let lhs = with_refs(u, st, rs);
    let rhs = seq![(u[0], st)] + with_refs(d, st, rs);
    assert forall|k: int| 0 <= k < lhs.len() implies lhs[k] == rhs[k] by {
        if k > 0 {
            assert(ref_mask(u)[k] == ref_mask(d)[k - 1]);
            assert(u[k] == d[k - 1]);
        }
    }
    assert(lhs =~= rhs);
}

proof fn lemma_refs_ref_head(u: Seq<char>, e: int, st: StyleState, rs: StyleState)
    requires
        ref_end(u) == Some(e),
        1 < e < u.len(),
    ensures
        with_refs(u, st, rs) == in_state(u.take(e + 1), rs) + with_refs(u.skip(e + 1), st, rs),
{
    let d = u.skip(e + 1);
    lemma_mask_len(u);
    lemma_mask_len(d);
    assert(ref_mask(u) == Seq::new((e + 1) as nat, |k: int| true) + ref_mask(d));
    let lhs = with_refs(u, st, rs);
    let rhs = in_state(u.take(e + 1), rs) + with_refs(d, st, rs);
    assert forall|k: int| 0 <= k < lhs.len() implies lhs[k] == rhs[k] by {
        if k > e {
            assert(ref_mask(u)[k] == ref_mask(d)[k - e - 1]);
            assert(u[k] == d[k - e - 1]);
        } else {
            assert(ref_mask(u)[k]);
        }
    }
    assert(lhs =~= rhs);
}

/// Whether every character of `cs[a..b]` is an ASCII digit.
fn digits_between(cs: &Vec<char>, a: usize, b: usize) -> (r: bool)
    requires
        a <= b <= cs.len(),
    ensures
        r == all_digits(cs@.subrange(a as int, b as int)),
{
    let mut k = a;
    while k < b
        invariant
            a <= k <= b,
            b <= cs.len(),
            forall|j: int| a <= j < k ==> is_ascii_digit(#[trigger] cs@[j]),
        decreases b - k,
    {
        let c = cs[k];
        if !(c == '0' || c == '1' || c == '2' || c == '3' || c == '4' || c == '5' || c == '6'
            || c == '7' || c == '8' || c == '9') {
            assert(cs@.subrange(a as int, b as int)[k - a] == c);
            return false;
        }
        k = k + 1;
    }
    assert forall|j: int| 0 <= j < b - a implies is_ascii_digit(
        #[trigger] cs@.subrange(a as int, b as int)[j],
    ) by {
        assert(cs@.subrange(a as int, b as int)[j] == cs@[a + j]);
    }
    true
}

/// The characters `cs[a..b]` as a string.
fn sub_string(cs: &Vec<char>, a: usize, b: usize) -> (r: String)
    requires
        a <= b <= cs.len(),
    ensures
        r@ == cs@.subrange(a as int, b as int),
{
    let mut out = String::new();
    let mut k = a;
    while k < b
        invariant
            a <= k <= b,
            b <= cs.len(),
            out@ == cs@.subrange(a as int, k as int),
        decreases b - k,
    {
        out.push(cs[k]);
        k = k + 1;
        assert(out@ =~= cs@.subrange(a as int, k as int));
    }
    out
}

impl LineBuffer {
    /// Pushes what a `[` at `cs[i]` opens: the whole reference when one
    /// starts there, else the `[` alone; returns where the text goes on.
    fn push_bracket(&mut self, cs: &Vec<char>, i: usize) -> (next: usize)
        requires
            i < cs.len(),
            cs@[i as int] == '[',
        ensures
            i < next <= cs.len(),
            ({
                let st = old(self).state();
                let rs = ref_state(st);
                old(self).stream() + with_refs(cs@.skip(i as int), st, rs) == final(self).stream()
                    + with_refs(cs@.skip(next as int), st, rs)
            }),
            final(self).state() == old(self).state(),
            final(self).bold == old(self).bold,
            final(self).italic == old(self).italic,
            final(self).style_stack@ == old(self).style_stack@,
            final(self).spans@.len() > 0,
    {
        let n = cs.len();
        let ghost st = old(self).state();
        let ghost rs = ref_state(st);
        let ghost u = cs@.skip(i as int);
        let mut e = i + 1;
        assert(first_close(u, 1) == first_close(u, (e - i) as int));
        while e < n && cs[e] != ']'
            invariant
                i < e <= n,
                n == cs@.len(),
                u == cs@.skip(i as int),
                first_close(u, 1) == first_close(u, (e - i) as int),
            decreases n - e,
        {
            assert(u[(e - i) as int] == cs@[e as int]);
            e = e + 1;
        }
        proof {
            if e < n {
                assert(u[(e - i) as int] == cs@[e as int]);
                assert(first_close(u, (e - i) as int) == Some((e - i) as int));
            } else {
                assert(first_close(u, (e - i) as int) is None);
            }
        }
        let valid = e < n && e > i + 1 && digits_between(cs, i + 1, e);
        proof {
            if e < n {
                assert(u.subrange(1, (e - i) as int) =~= cs@.subrange(i + 1, e as int));
            }
            assert(u[0] == '[');
        }
        if valid {
            let piece = sub_string(cs, i, e + 1);
            self.push_style(Tint::Reference);
            self.push_str(piece.as_str());
            self.pop_style();
            proof {
                assert(ref_end(u) == Some((e - i) as int));
                lemma_refs_ref_head(u, (e - i) as int, st, rs);
                assert(u.take((e - i + 1) as int) =~= piece@);
                assert(u.skip((e - i + 1) as int) =~= cs@.skip(e + 1));
                assert(self.style_stack@ =~= old(self).style_stack@);
            }
            e + 1
        } else {
            self.push_str("[");
            proof {
                reveal_strlit("[");
                lemma_refs_plain_head(u, st, rs);
                assert(u.drop_first() =~= cs@.skip(i + 1));
                assert(in_state("["@, st) =~= seq![(u[0], st)]);
            }
            i + 1
        }
    }

    /// Pushes body text, colouring each `[n]` reference (a `[`, digits, and
    /// the first `]` after it) with the reference colour.
    pub fn push_text_with_refs(&mut self, text: &str)
        ensures
            final(self).stream() == old(self).stream() + with_refs(
                text@,
                old(self).state(),
                ref_state(old(self).state()),
            ),
            final(self).spans@.len() > 0 <==> (old(self).spans@.len() > 0 || text@.len() > 0),
            final(self).bold == old(self).bold,
            final(self).italic == old(self).italic,
            final(self).style_stack@ == old(self).style_stack@,
    {
        let cs = chars_of(text);
        let n = cs.len();
        let ghost st = old(self).state();
        let ghost rs = ref_state(st);
        let mut i: usize = 0;
        assert(cs@.skip(0) =~= cs@);
        while i < n
            invariant
                i <= n,
                n == cs@.len(),
                cs@ == text@,
                self.state() == st,
                rs == ref_state(st),
                self.bold == old(self).bold,
                self.italic == old(self).italic,
                self.style_stack@ == old(self).style_stack@,
                old(self).stream() + with_refs(text@, st, rs) == self.stream() + with_refs(
                    cs@.skip(i as int),
                    st,
                    rs,
                ),
                self.spans@.len() > 0 <==> (old(self).spans@.len() > 0 || i > 0),
            decreases n - i,
        {
            let ghost u = cs@.skip(i as int);
            let ghost before = self.stream();
            if cs[i] != '[' {
                let mut one = String::new();
                one.push(cs[i]);
                self.push_str(one.as_str());
                proof {
                    lemma_refs_plain_head(u, st, rs);
                    assert(u.drop_first() =~= cs@.skip(i + 1));
                    assert(in_state(one@, st) =~= seq![(u[0], st)]);
                }
                i = i + 1;
            } else {
                i = self.push_bracket(&cs, i);
            }
        }
        proof {
            assert(cs@.skip(n as int) =~= Seq::<char>::empty());
            assert(with_refs(Seq::<char>::empty(), st, rs) =~= Seq::<(char, StyleState)>::empty());
            assert(self.stream() + Seq::<(char, StyleState)>::empty() =~= self.stream());
        }
    }
}

/// The characters of collected text with their final styles in a block styled `base`.
pub open spec fn styled(s: Seq<(char, StyleState)>, base: SpanStyle) -> Seq<(char, SpanStyle)> {
    s.map_values(|p: (char, StyleState)| (p.0, style_of(base, p.1)))
}

pub open spec fn seg_views(v: Seq<Vec<(char, SpanStyle)>>) -> Seq<Seq<(char, SpanStyle)>> {
    v.map_values(|x: Vec<(char, SpanStyle)>| x@)
}

/// The lines a flush gives: the collected text split at line breaks, each
/// piece wrapped at `width` (empty pieces after the first are dropped).
pub open spec fn flush_spec(stream: Seq<(char, StyleState)>, width: int, base: SpanStyle) -> Seq<Seq<(char, SpanStyle)>> {
    wrap_segments(split_nl(styled(stream, base)), width, 0)
}

/// Appends a styled character to a line, in its last span when the style matches.
fn append_char(cur: &mut Vec<StyledSpan>, ch: char, st: SpanStyle)
    requires
        grouped(old(cur)@),
    ensures
        grouped(final(cur)@),
        line_chars(final(cur)@) == line_chars(old(cur)@).push((ch, st)),
{
    let n = cur.len();
    let ghost pre = cur@;
    if n > 0 && cur[n - 1].style == st {
        let mut last = cur.pop().unwrap();
        last.text.push(ch);
        cur.push(last);
        proof {
            assert(cur@.drop_last() =~= pre.drop_last());
            assert(span_chars(cur@.last()) =~= span_chars(pre.last()).push((ch, st)));
            assert forall|i: int| 0 < i < cur@.len() implies (#[trigger] cur@[i]).style != cur@[i
                - 1].style by {
                if i < cur@.len() - 1 {
                    assert(cur@[i] == pre[i]);
                    assert(cur@[i - 1] == pre[i - 1]);
                } else {
                    assert(cur@[i - 1] == pre[i - 1]);
                }
            }
            assert forall|i: int| 0 <= i < cur@.len() implies (#[trigger] cur@[i]).text@.len() > 0 by {
                if i < cur@.len() - 1 {
                    assert(cur@[i] == pre[i]);
                }
            }
        }
    } else {
        let mut t = String::new();
        t.push(ch);
        cur.push(StyledSpan { text: t, style: st });
        proof {
            assert(cur@.drop_last() =~= pre);
            assert(span_chars(cur@.last()) =~= seq![(ch, st)]);
            assert forall|i: int| 0 < i < cur@.len() implies (#[trigger] cur@[i]).style != cur@[i
                - 1].style by {
                if i < cur@.len() - 1 {
                    assert(cur@[i] == pre[i]);
                }
                assert(cur@[i - 1] == pre[i - 1]);
            }
            assert forall|i: int| 0 <= i < cur@.len() implies (#[trigger] cur@[i]).text@.len() > 0 by {
                if i < cur@.len() - 1 {
                    assert(cur@[i] == pre[i]);
                }
            }
        }
    }
}

/// `wrap_from` with the columns of each character given by `cs` (as measured).
pub open spec fn wrap_cols_from(
    seg: Seq<(char, SpanStyle)>,
    cs: Seq<int>,
    width: int,
    i: int,
    cur: Seq<(char, SpanStyle)>,
    used: int,
) -> Seq<Seq<(char, SpanStyle)>>
    decreases seg.len() - i,
{
    if i < 0 || i >= seg.len() {
        seq![cur]
    } else {
        let cw = cs[i];
        if cw > 0 && used + cw > width && used > 0 {
            seq![cur] + wrap_cols_from(seg, cs, width, i + 1, seq![seg[i]], cw)
        } else {
            wrap_cols_from(seg, cs, width, i + 1, cur.push(seg[i]), used + cw)
        }
    }
}

pub open spec fn widths_view(cs: Seq<usize>) -> Seq<int> {
    cs.map_values(|w: usize| w as int)
}

proof fn lemma_wrap_cols(
    seg: Seq<(char, SpanStyle)>,
    cs: Seq<int>,
    width: int,
    i: int,
    cur: Seq<(char, SpanStyle)>,
    used: int,
)
    requires
        cs.len() == seg.len(),
        forall|k: int| 0 <= k < seg.len() ==> #[trigger] cs[k] == cols(seg[k].0),
    ensures
        wrap_cols_from(seg, cs, width, i, cur, used) == wrap_from(seg, width, i, cur, used),
    decreases seg.len() - i,
{
    if 0 <= i < seg.len() {
        let cw = cs[i];
        assert(cw == cols(seg[i].0));
        if cw > 0 && used + cw > width && used > 0 {
            lemma_wrap_cols(seg, cs, width, i + 1, seq![seg[i]], cw);
        } else {
            lemma_wrap_cols(seg, cs, width, i + 1, cur.push(seg[i]), used + cw);
        }
    }
}

/// Wraps one piece at `width` columns, given the columns `cs` of each of
/// its characters, and appends its lines: a character that would overflow a
/// non-empty line starts the next one; characters of no width never break.
#[verifier::rlimit(50)]
#[verifier::spinoff_prover]
pub fn wrap_measured(out: &mut Vec<StyledLine>, seg: &Vec<(char, SpanStyle)>, cs: &Vec<usize>, width: usize)
    requires
        cs.len() == seg.len(),
        forall|k: int| 0 <= k < old(out)@.len() ==> grouped(#[trigger] old(out)@[k].spans@),
    ensures
        lines_view(final(out)@) == lines_view(old(out)@) + wrap_cols_from(
            seg@,
            widths_view(cs@),
            width as int,
            0,
            Seq::empty(),
            0,
        ),
        forall|k: int| 0 <= k < final(out)@.len() ==> grouped(#[trigger] final(out)@[k].spans@),
{
    let ghost ws = widths_view(cs@);
    let ghost goal = wrap_cols_from(seg@, ws, width as int, 0, Seq::empty(), 0);
    let mut cur: Vec<StyledSpan> = Vec::new();
    let mut used: usize = 0;
    let mut j: usize = 0;
    assert(line_chars(cur@) =~= Seq::<(char, SpanStyle)>::empty());
    while j < seg.len()
        invariant
            j <= seg.len(),
            cs.len() == seg.len(),
            ws == widths_view(cs@),
            goal == wrap_cols_from(seg@, ws, width as int, 0, Seq::empty(), 0),
            grouped(cur@),
            forall|k: int| 0 <= k < out@.len() ==> grouped(#[trigger] out@[k].spans@),
            lines_view(out@) + wrap_cols_from(seg@, ws, width as int, j as int, line_chars(cur@), used as int)
                == lines_view(old(out)@) + goal,
        decreases seg.len() - j,
    {
        let (ch, st) = seg[j];
        let cw: usize = cs[j];
        let over = match used.checked_add(cw) {
            Some(total) => total > width,
            None => true,
        };
        let ghost before = lines_view(out@);
        let ghost cur0 = line_chars(cur@);
        let ghost u0 = used as int;
        assert(seg@[j as int] == (ch, st));
        assert(over == (u0 + cw > width));
        assert(ws[j as int] == cw as int);
        if cw > 0 && over && used > 0 {
            let line = StyledLine { spans: cur };
            out.push(line);
            cur = Vec::new();
            assert(line_chars(cur@) =~= Seq::<(char, SpanStyle)>::empty());
            append_char(&mut cur, ch, st);
            used = cw;
            proof {
                assert(line_chars(cur@) =~= seq![seg@[j as int]]);
                assert(lines_view(out@) =~= before.push(cur0));
                assert(wrap_cols_from(seg@, ws, width as int, j as int, cur0, u0) == seq![cur0]
                    + wrap_cols_from(seg@, ws, width as int, j + 1, seq![seg@[j as int]], cw as int));
                assert(before.push(cur0) + wrap_cols_from(seg@, ws, width as int, j + 1, line_chars(cur@), used as int)
                    =~= before + (seq![cur0] + wrap_cols_from(seg@, ws, width as int, j + 1, line_chars(cur@), used as int)));
            }
        } else {
            append_char(&mut cur, ch, st);
            used = used + cw;
            proof {
                assert(wrap_cols_from(seg@, ws, width as int, j as int, cur0, u0) == wrap_cols_from(
                    seg@,
                    ws,
                    width as int,
                    j + 1,
                    cur0.push(seg@[j as int]),
                    u0 + cw,
                ));
            }
        }
        j = j + 1;
    }
    out.push(StyledLine { spans: cur });
    proof {
        assert(lines_view(out@) =~= lines_view(out@.drop_last()).push(line_chars(cur@)));
    }
}

/// Wraps one piece at `width` columns and appends its lines, measuring each
/// character with `char_width`.
fn wrap_into(out: &mut Vec<StyledLine>, seg: &Vec<(char, SpanStyle)>, width: usize)
    requires
        forall|k: int| 0 <= k < old(out)@.len() ==> grouped(#[trigger] old(out)@[k].spans@),
    ensures
        lines_view(final(out)@) == lines_view(old(out)@) + wrap(seg@, width as int),
        forall|k: int| 0 <= k < final(out)@.len() ==> grouped(#[trigger] final(out)@[k].spans@),
{
    let mut cs: Vec<usize> = Vec::new();
    let mut j: usize = 0;
    while j < seg.len()
        invariant
            j <= seg.len(),
            cs.len() == j,
            forall|k: int| 0 <= k < j ==> #[trigger] widths_view(cs@)[k] == cols(seg@[k].0),
        decreases seg.len() - j,
    {
        let cw: usize = match char_width(seg[j].0) {
            Some(w) => w,
            None => 0,
        };
        let ghost c0 = cs@;
        cs.push(cw);
        proof {
            assert(cs@ =~= c0.push(cw));
            assert forall|k: int| 0 <= k < j + 1 implies #[trigger] widths_view(cs@)[k] == cols(seg@[k].0) by {
                if k < j {
                    assert(widths_view(cs@)[k] == widths_view(c0)[k]);
                }
            }
        }
        j = j + 1;
    }
    proof {
        lemma_wrap_cols(seg@, widths_view(cs@), width as int, 0, Seq::empty(), 0);
    }
    wrap_measured(out, seg, &cs, width);
}

/// The collected characters with their final styles.
fn styled_chars(spans: &Vec<(String, StyleState)>, base: SpanStyle) -> (r: Vec<(char, SpanStyle)>)
    ensures
        r@ == styled(stream_of(spans@), base),
{
    let mut r: Vec<(char, SpanStyle)> = Vec::new();
    let mut i: usize = 0;
    while i < spans.len()
        invariant
            i <= spans.len(),
            r@ == styled(stream_of(spans@.take(i as int)), base),
        decreases spans.len() - i,
    {
        let cs = chars_of(spans[i].0.as_str());
        let st = style_of_exec(base, spans[i].1);
        let ghost r0 = r@;
        let mut k: usize = 0;
        while k < cs.len()
            invariant
                k <= cs.len(),
                st == style_of(base, spans@[i as int].1),
                r@ == r0 + cs@.take(k as int).map_values(|c: char| (c, st)),
            decreases cs.len() - k,
        {
            r.push((cs[k], st));
            k = k + 1;
            assert(r@ =~= r0 + cs@.take(k as int).map_values(|c: char| (c, st)));
        }
        proof {
            assert(spans@.take(i + 1).drop_last() =~= spans@.take(i as int));
            assert(cs@.take(cs.len() as int) =~= cs@);
            assert(styled(stream_of(spans@.take(i + 1)), base) =~= r0 + cs@.map_values(
                |c: char| (c, st),
            ));
        }
        i = i + 1;
    }
    assert(spans@.take(spans.len() as int) =~= spans@);
    r
}

fn style_of_exec(base: SpanStyle, st: StyleState) -> (r: SpanStyle)
    ensures
        r == style_of(base, st),
{
    SpanStyle {
        fg: match st.extra {
            Some(t) => Some(t),
            None => base.fg,
        },
        bold: base.bold || st.bold,
        italic: base.italic || st.italic,
    }
}

/// The pieces between line breaks.
fn split_newlines(v: &Vec<(char, SpanStyle)>) -> (r: Vec<Vec<(char, SpanStyle)>>)
    ensures
        seg_views(r@) == split_nl(v@),
        r@.len() > 0,
{
    let mut r: Vec<Vec<(char, SpanStyle)>> = Vec::new();
    r.push(Vec::new());
    let mut i: usize = 0;
    assert(v@.take(0) =~= Seq::<(char, SpanStyle)>::empty());
    assert(seg_views(r@) =~= seq![Seq::<(char, SpanStyle)>::empty()]);
    while i < v.len()
        invariant
            i <= v.len(),
            r@.len() > 0,
            seg_views(r@) == split_nl(v@.take(i as int)),
        decreases v.len() - i,
    {
        let ghost prev = seg_views(r@);
        assert(v@.take(i + 1).drop_last() =~= v@.take(i as int));
        assert(v@.take(i + 1).last() == v@[i as int]);
        if v[i].0 == '\n' {
            r.push(Vec::new());
            assert(seg_views(r@) =~= prev.push(Seq::empty()));
        } else {
            let n = r.len();
            let mut last = r.pop().unwrap();
            last.push(v[i]);
            r.push(last);
            assert(seg_views(r@) =~= prev.update(n - 1, prev.last().push(v@[i as int])));
        }
        i = i + 1;
    }
    assert(v@.take(v.len() as int) =~= v@);
    r
}

impl LineBuffer {
    /// The collected text as lines wrapped at `width` columns, styled on
    /// top of `base` (the block's style).  Line breaks split lines; empty
    /// pieces after the first are dropped.  Nothing collected, no lines.
    pub fn flush_as_lines(&self, width: usize, base: SpanStyle) -> (r: Vec<StyledLine>)
        ensures
            self.spans@.len() == 0 ==> r@.len() == 0,
            self.spans@.len() > 0 ==> lines_view(r@) == flush_spec(self.stream(), width as int, base),
            forall|k: int| 0 <= k < r@.len() ==> grouped(#[trigger] r@[k].spans@),
    {
        let mut out: Vec<StyledLine> = Vec::new();
        if self.spans.len() == 0 {
            return out;
        }
        let stream = styled_chars(&self.spans, base);
        let segs = split_newlines(&stream);
        let ghost sv = seg_views(segs@);
        let mut k: usize = 0;
        assert(lines_view(out@) =~= Seq::<Seq<(char, SpanStyle)>>::empty());
        while k < segs.len()
            invariant
                k <= segs.len(),
                sv == seg_views(segs@),
                sv == split_nl(styled(self.stream(), base)),
                forall|m: int| 0 <= m < out@.len() ==> grouped(#[trigger] out@[m].spans@),
                wrap_segments(sv, width as int, 0) == lines_view(out@) + wrap_segments(
                    sv,
                    width as int,
                    k as int,
                ),
            decreases segs.len() - k,
        {
            let ghost before = lines_view(out@);
            assert(sv[k as int] == segs@[k as int]@);
            if k == 0 || segs[k].len() > 0 {
                wrap_into(&mut out, &segs[k], width);
            }
            proof {
                assert(before + wrap_segments(sv, width as int, k as int) =~= lines_view(out@)
                    + wrap_segments(sv, width as int, k + 1));
            }
            k = k + 1;
        }
        assert(lines_view(out@) + wrap_segments(sv, width as int, k as int) =~= lines_view(out@));
        out
    }
}

// ---------------------------------------------------------------------------
// Events
// ---------------------------------------------------------------------------
/// The start of a Markdown element, as the renderer reads it.
#[derive(Debug, Clone)]
pub enum MdTag {
    /// A heading of this level (1 to 6).
    Heading(u8),
    /// A code block; a fenced one has its info string.
    CodeBlock(Option<String>),
    Paragraph,
    List,
    Item,
    Strong,
    Emphasis,
    Other,
}

/// A Markdown event, as the renderer reads it.  Elements are balanced: each
/// `End` closes the last element started and not closed yet.
#[derive(Debug, Clone)]
pub enum MdEvent {
    Start(MdTag),
    End,
    Text(String),
    /// Inline code.
    Code(String),
    /// A soft or hard line break.
    Break,
    /// Anything else (rules, HTML, footnotes, ...).
    Ignored,
}

/// The kind of an open element.
#[derive(Debug, Clone, Copy, PartialEq, Eq, Structural)]
pub enum OpenTag {
    Heading(u8),
    CodeBlock,
    Paragraph,
    List,
    Item,
    Strong,
    Emphasis,
    Other,
}

pub enum MdTagView {
    Heading(u8),
    CodeBlock(Option<Seq<char>>),
    Paragraph,
    List,
    Item,
    Strong,
    Emphasis,
    Other,
}

pub enum MdEventView {
    Start(MdTagView),
    End,
    Text(Seq<char>),
    Code(Seq<char>),
    Break,
    Other,
}

impl View for MdTag {
    type V = MdTagView;

    open spec fn view(&self) -> MdTagView {
        match self {
            MdTag::Heading(l) => MdTagView::Heading(*l),
            MdTag::CodeBlock(i) => MdTagView::CodeBlock(match i {
                Some(s) => Some(s@),
                None => None,
            }),
            MdTag::Paragraph => MdTagView::Paragraph,
            MdTag::List => MdTagView::List,
            MdTag::Item => MdTagView::Item,
            MdTag::Strong => MdTagView::Strong,
            MdTag::Emphasis => MdTagView::Emphasis,
            MdTag::Other => MdTagView::Other,
        }
    }
}

impl View for MdEvent {
    type V = MdEventView;

    open spec fn view(&self) -> MdEventView {
        match self {
            MdEvent::Start(t) => MdEventView::Start(t@),
            MdEvent::End => MdEventView::End,
            MdEvent::Text(t) => MdEventView::Text(t@),
            MdEvent::Code(t) => MdEventView::Code(t@),
            MdEvent::Break => MdEventView::Break,
            MdEvent::Ignored => MdEventView::Other,
        }
    }
}

pub open spec fn events_view(v: Seq<MdEvent>) -> Seq<MdEventView> {
    v.map_values(|e: MdEvent| e@)
}

/// The events pulldown-cmark reads from a text (tables enabled).
pub uninterp spec fn markdown_events_of(text: Seq<char>) -> Seq<MdEventView>;

/// Parses `text` with `pulldown_cmark::Parser::new_ext` (tables enabled)
/// and converts each event: the start of a heading, code block, paragraph,
/// list, item, strong or emphasis element with what the renderer needs of
/// it, any end, text, inline code, soft and hard breaks; everything else is
/// `Other`.  The result is named by `markdown_events_of`.
#[verifier::external_body]
fn markdown_events(text: &str) -> (r: Vec<MdEvent>)
    ensures
        events_view(r@) == markdown_events_of(text@),
{
    let tag = |t: Tag| match t {
        Tag::Heading { level, .. } => Heading(level as u8),
        Tag::CodeBlock(CodeBlockKind::Fenced(i)) => CodeBlock(Some(i.to_string())),
        Tag::CodeBlock(_) => CodeBlock(None),
        Tag::Paragraph => Paragraph, Tag::List(_) => List, Tag::Item => Item,
        Tag::Strong => Strong, Tag::Emphasis => Emphasis, _ => Other,
    };
    Parser::new_ext(text, Options::ENABLE_TABLES).map(|e| match e {
        Event::Start(t) => Start(tag(t)), Event::End(_) => End,
        Event::Text(t) => Text(t.to_string()), Event::Code(t) => Code(t.to_string()),
        Event::SoftBreak | Event::HardBreak => Break, _ => Ignored,
    }).collect()
}

// ---------------------------------------------------------------------------
// The renderer
// ---------------------------------------------------------------------------
pub open spec fn plain(t: Tint) -> SpanStyle {
    SpanStyle { fg: Some(t), bold: false, italic: false }
}

/// Style of heading text of `level`: level 1 in the heading colour, deeper
/// ones in the sub-heading colour, bold.
pub open spec fn heading_style(level: int) -> SpanStyle {
    SpanStyle {
        fg: Some(if level == 1 {
            Tint::Heading
        } else {
            Tint::SubHeading
        }),
        bold: true,
        italic: false,
    }
}

/// The rendering state between events.
pub struct MdRenderer {
    pub width: usize,
    pub lines: Vec<StyledLine>,
    pub current: LineBuffer,
    pub in_code_block: bool,
    pub heading_level: u8,
    pub list_depth: usize,
    /// Text gathered across events (pulldown-cmark splits `[n]` into several).
    pub text_acc: String,
    pub code_lang: Option<String>,
    pub code_buf: String,
    /// The elements open now, innermost last.
    pub open_tags: Vec<OpenTag>,
}

/// `current`'s characters after the gathered text `acc` is pushed: as it is
/// in a code block or heading, with references marked elsewhere.
pub open spec fn drained(r: &MdRenderer) -> Seq<(char, StyleState)> {
    let st = r.current.state();
    if r.text_acc@.len() == 0 {
        r.current.stream()
    } else if r.in_code_block || r.heading_level > 0 {
        r.current.stream() + in_state(r.text_acc@, st)
    } else {
        r.current.stream() + with_refs(r.text_acc@, st, ref_state(st))
    }
}

/// Whether `current` holds any piece after draining.
pub open spec fn drained_has(r: &MdRenderer) -> bool {
    r.current.spans@.len() > 0 || r.text_acc@.len() > 0
}

/// The lines a block end adds: the flushed buffer, if it holds anything.
pub open spec fn flushed(r: &MdRenderer, base: SpanStyle) -> Seq<Seq<(char, SpanStyle)>> {
    if drained_has(r) {
        flush_spec(drained(r), r.width as int, base)
    } else {
        Seq::empty()
    }
}

/// The open element that an `End` closes.
pub open spec fn closing(r: &MdRenderer) -> OpenTag {
    if r.open_tags@.len() == 0 {
        OpenTag::Other
    } else {
        r.open_tags@.last()
    }
}

pub open spec fn spaces(n: nat) -> Seq<char> {
    Seq::new(2 * n, |k: int| ' ')
}

pub open spec fn open_kind(t: MdTagView) -> OpenTag {
    match t {
        MdTagView::Heading(l) => OpenTag::Heading(l),
        MdTagView::CodeBlock(_) => OpenTag::CodeBlock,
        MdTagView::Paragraph => OpenTag::Paragraph,
        MdTagView::List => OpenTag::List,
        MdTagView::Item => OpenTag::Item,
        MdTagView::Strong => OpenTag::Strong,
        MdTagView::Emphasis => OpenTag::Emphasis,
        MdTagView::Other => OpenTag::Other,
    }
}

/// A line of one span in a plain colour.
fn one_span_line(text: String, t: Tint) -> (r: StyledLine)
    ensures
        r.spans@.len() == 1,
        r.spans@[0].text@ == text@,
        r.spans@[0].style == plain(t),
{
    let mut spans: Vec<StyledSpan> = Vec::new();
    spans.push(StyledSpan { text, style: SpanStyle { fg: Some(t), bold: false, italic: false } });
    StyledLine { spans }
}

impl MdRenderer {
    pub fn new(width: usize) -> (r: Self)
        ensures
            r.width == width,
            r.lines@.len() == 0,
            r.current.spans@.len() == 0 && !r.current.bold && !r.current.italic
                && r.current.style_stack@.len() == 0,
            !r.in_code_block,
            r.heading_level == 0,
            r.list_depth == 0,
            r.text_acc@.len() == 0,
            r.code_lang is None,
            r.code_buf@.len() == 0,
            r.open_tags@.len() == 0,
    {
        MdRenderer {
            width,
            lines: Vec::new(),
            current: LineBuffer::new(),
            in_code_block: false,
            heading_level: 0,
            list_depth: 0,
            text_acc: String::new(),
            code_lang: None,
            code_buf: String::new(),
            open_tags: Vec::new(),
        }
    }

    /// Pushes the gathered text into the line buffer.
    fn drain_text(&mut self)
        ensures
            final(self).current.stream() == drained(old(self)),
            final(self).current.spans@.len() > 0 <==> drained_has(old(self)),
            final(self).current.state() == old(self).current.state(),
            final(self).current.bold == old(self).current.bold,
            final(self).current.italic == old(self).current.italic,
            final(self).current.style_stack@ == old(self).current.style_stack@,
            final(self).text_acc@.len() == 0,
            final(self).width == old(self).width,
            final(self).lines@ == old(self).lines@,
            final(self).in_code_block == old(self).in_code_block,
            final(self).heading_level == old(self).heading_level,
            final(self).list_depth == old(self).list_depth,
            final(self).code_lang == old(self).code_lang,
            final(self).code_buf@ == old(self).code_buf@,
            final(self).open_tags@ == old(self).open_tags@,
    {
        if self.text_acc.as_str().is_empty() {
            return;
        }
        let s = self.text_acc.clone();
        self.text_acc = String::new();
        if self.in_code_block || self.heading_level > 0 {
            self.current.push_str(s.as_str());
        } else {
            self.current.push_text_with_refs(s.as_str());
        }
    }

    /// Flushes the buffer at the end of a block and clears it.
    fn end_block(&mut self, base: SpanStyle)
        ensures
            lines_view(final(self).lines@) == lines_view(old(self).lines@) + (if old(self).current.spans@.len() > 0 {
                flush_spec(old(self).current.stream(), old(self).width as int, base)
            } else {
                Seq::empty()
            }),
            final(self).current.spans@.len() == 0,
            final(self).current.bold == old(self).current.bold,
            final(self).current.italic == old(self).current.italic,
            final(self).current.style_stack@ == old(self).current.style_stack@,
            final(self).text_acc@ == old(self).text_acc@,
            final(self).width == old(self).width,
            final(self).in_code_block == old(self).in_code_block,
            final(self).heading_level == old(self).heading_level,
            final(self).list_depth == old(self).list_depth,
            final(self).code_lang == old(self).code_lang,
            final(self).code_buf@ == old(self).code_buf@,
            final(self).open_tags@ == old(self).open_tags@,
    {
        let mut flushed = self.current.flush_as_lines(self.width, base);
        let ghost fv = lines_view(flushed@);
        let ghost l0 = lines_view(self.lines@);
        self.lines.append(&mut flushed);
        assert(lines_view(self.lines@) =~= l0 + fv);
        self.current.clear();
    }
}

/// A line of `t` in one plain colour.
pub open spec fn tinted(t: Seq<char>, c: Tint) -> Seq<(char, SpanStyle)> {
    t.map_values(|ch: char| (ch, plain(c)))
}

/// The label line of a fenced block.
pub open spec fn label_line(tag: Seq<char>) -> Seq<(char, SpanStyle)> {
    tinted("── "@ + tag + " ──"@, Tint::Muted)
}

/// The rule under a code block.
pub open spec fn rule_line() -> Seq<(char, SpanStyle)> {
    tinted("────────────"@, Tint::Muted)
}

/// Number of highlighted rows of `code`: one per line, at least one.
pub open spec fn code_rows(code: Seq<char>) -> int {
    if lines_with_endings(code).len() == 0 {
        1
    } else {
        lines_with_endings(code).len() as int
    }
}

/// The lines a code block adds: a label when the fence names a language,
/// one line per row of `code` led by a two-column muted indent, a rule, and
/// an empty line.  The highlighted tokens themselves come from syntect.
pub open spec fn code_block_lines(added: Seq<Seq<(char, SpanStyle)>>, code: Seq<char>, lang: Seq<char>) -> bool {
    let off: int = if lang_tag_spec(lang) is Some {
        1
    } else {
        0
    };
    &&& added.len() == off + code_rows(code) + 2
    &&& lang_tag_spec(lang) matches Some(tag) ==> added[0] == label_line(tag)
    &&& forall|k: int| off <= k < off + code_rows(code) ==> (#[trigger] added[k]).take(2) == tinted(
        "  "@,
        Tint::Muted,
    )
    &&& added[added.len() - 2] == rule_line()
    &&& added[added.len() - 1].len() == 0
}

fn muted_line(text: &str) -> (r: StyledLine)
    ensures
        line_chars(r.spans@) == tinted(text@, Tint::Muted),
{
    let l = one_span_line(text.to_owned(), Tint::Muted);
    proof {
        assert(l.spans@.drop_last() =~= Seq::<StyledSpan>::empty());
        assert(line_chars(Seq::<StyledSpan>::empty()) =~= Seq::<(char, SpanStyle)>::empty());
        assert(span_chars(l.spans@.last()) =~= tinted(text@, Tint::Muted));
        assert(line_chars(l.spans@) =~= tinted(text@, Tint::Muted));
    }
    l
}

/// A highlighted row, led by the muted indent.
fn code_row_line(row: Vec<(Rgb, String)>) -> (r: StyledLine)
    ensures
        line_chars(r.spans@).take(2) == tinted("  "@, Tint::Muted),
{
    let mut spans: Vec<StyledSpan> = Vec::new();
    spans.push(StyledSpan { text: "  ".to_owned(), style: SpanStyle { fg: Some(Tint::Muted), bold: false, italic: false } });
    proof {
        reveal_strlit("  ");
        assert(spans@.drop_last() =~= Seq::<StyledSpan>::empty());
        assert(line_chars(Seq::<StyledSpan>::empty()) =~= Seq::<(char, SpanStyle)>::empty());
        assert(span_chars(spans@.last()) =~= tinted("  "@, Tint::Muted));
        assert(line_chars(spans@) =~= tinted("  "@, Tint::Muted));
    }
    let ghost head = line_chars(spans@);
    let mut k: usize = 0;
    while k < row.len()
        invariant
            k <= row.len(),
            spans@.len() >= 1,
            head == tinted("  "@, Tint::Muted),
            head.len() == 2,
            line_chars(spans@).take(2) == head,
            line_chars(spans@).len() >= 2,
        decreases row.len() - k,
    {
        let (c, t) = (row[k].0, row[k].1.clone());
        let ghost pre = line_chars(spans@);
        let ghost s0 = spans@;
        spans.push(StyledSpan { text: t, style: SpanStyle { fg: Some(Tint::Rgb(c.0, c.1, c.2)), bold: false, italic: false } });
        assert(spans@.drop_last() =~= s0);
        assert(line_chars(spans@) == pre + span_chars(spans@.last()));
        assert((pre + span_chars(spans@.last())).take(2) =~= pre.take(2));
        k = k + 1;
    }
    StyledLine { spans }
}

pub open spec fn opt_str(o: Option<String>) -> Option<Seq<char>> {
    match o {
        Some(s) => Some(s@),
        None => None,
    }
}

pub open spec fn or_blank(o: Option<Seq<char>>) -> Seq<char> {
    match o {
        Some(s) => s,
        None => Seq::empty(),
    }
}

/// The language remembered at the start of a code block: the fence's tag.
pub open spec fn fence_lang(info: Option<Seq<char>>) -> Option<Seq<char>> {
    match info {
        Some(i) => lang_tag_spec(i),
        None => None,
    }
}

/// The state besides `lines`, `current` and the gathered texts stays.
pub open spec fn same_frame(a: &MdRenderer, b: &MdRenderer) -> bool {
    &&& a.width == b.width
    &&& a.in_code_block == b.in_code_block
    &&& a.heading_level == b.heading_level
    &&& a.list_depth == b.list_depth
    &&& opt_str(a.code_lang) == opt_str(b.code_lang)
    &&& a.open_tags@ == b.open_tags@
}

/// The emphasis state of the buffer stays.
pub open spec fn same_emphasis(a: &LineBuffer, b: &LineBuffer) -> bool {
    a.bold == b.bold && a.italic == b.italic && a.style_stack@ == b.style_stack@
}

impl MdRenderer {
    /// End of a code block: the gathered code is highlighted and framed.
    fn end_code_block(&mut self, engine: &Engine)
        requires
            engine.wf(),
            old(self).open_tags@.len() > 0,
        ensures
            code_block_lines(
                lines_view(final(self).lines@).skip(old(self).lines@.len() as int),
                old(self).code_buf@,
                or_blank(opt_str(old(self).code_lang)),
            ),
            lines_view(final(self).lines@).take(old(self).lines@.len() as int) == lines_view(
                old(self).lines@,
            ),
            final(self).lines@.len() >= old(self).lines@.len(),
            !final(self).in_code_block,
            final(self).code_buf@.len() == 0,
            final(self).code_lang is None,
            final(self).open_tags@ == old(self).open_tags@.drop_last(),
            final(self).current.spans@ == old(self).current.spans@,
            same_emphasis(&final(self).current, &old(self).current),
            final(self).text_acc@ == old(self).text_acc@,
            final(self).width == old(self).width,
            final(self).heading_level == old(self).heading_level,
            final(self).list_depth == old(self).list_depth,
    {
        let code = self.code_buf.clone();
        self.code_buf = String::new();
        let lang = match self.code_lang.take() {
            Some(l) => l,
            None => String::new(),
        };
        self.in_code_block = false;
        self.open_tags.pop();
        let mut added = code_block(engine, &code, &lang);
        let ghost l0 = lines_view(self.lines@);
        let ghost av = lines_view(added@);
        self.lines.append(&mut added);
        proof {
            assert(lines_view(self.lines@) =~= l0 + av);
            assert(lines_view(self.lines@).skip(l0.len() as int) =~= av);
            assert(lines_view(self.lines@).take(l0.len() as int) =~= l0);
        }
    }
}

/// The framed, highlighted lines of a code block.
fn code_block(engine: &Engine, code: &String, lang: &String) -> (r: Vec<StyledLine>)
    requires
        engine.wf(),
    ensures
        code_block_lines(lines_view(r@), code@, lang@),
{
    let mut out: Vec<StyledLine> = Vec::new();
    let tag = lang_tag(lang.as_str());
    let off: usize = if tag.is_some() {
        1
    } else {
        0
    };
    match tag {
        Some(t) => {
            let mut label = "── ".to_owned();
            label.push_str(t.as_str());
            label.push_str(" ──");
            proof {
                reveal_strlit("── ");
                reveal_strlit(" ──");
            }
            out.push(muted_line(label.as_str()));
        },
        None => {},
    }
    let rows = highlight_lines(engine, code.as_str(), lang.as_str());
    let mut k: usize = 0;
    while k < rows.len()
        invariant
            k <= rows.len(),
            rows@.len() == code_rows(code@),
            out@.len() == off + k,
            off == (if lang_tag_spec(lang@) is Some {
                1usize
            } else {
                0usize
            }),
            lang_tag_spec(lang@) matches Some(tg) ==> lines_view(out@)[0] == label_line(tg),
            forall|m: int|
                off <= m < off + k ==> (#[trigger] lines_view(out@)[m]).take(2) == tinted(
                    "  "@,
                    Tint::Muted,
                ),
        decreases rows.len() - k,
    {
        let ghost before = lines_view(out@);
        let line = code_row_line(rows[k].clone());
        out.push(line);
        assert(lines_view(out@) =~= before.push(line_chars(line.spans@)));
        k = k + 1;
    }
    let ghost before = lines_view(out@);
    let rule = muted_line("────────────");
    let ghost rv = line_chars(rule.spans@);
    out.push(rule);
    out.push(StyledLine { spans: Vec::new() });
    proof {
        reveal_strlit("────────────");
        assert(line_chars(Seq::<StyledSpan>::empty()) =~= Seq::<(char, SpanStyle)>::empty());
        let lv = lines_view(out@);
        assert(lv =~= before.push(rv).push(Seq::<(char, SpanStyle)>::empty()));
        assert(rv == rule_line());
        assert forall|m: int| off <= m < off + code_rows(code@) implies (#[trigger] lv[m]).take(2)
            == tinted("  "@, Tint::Muted) by {
            assert(lv[m] == before[m]);
        }
        if lang_tag_spec(lang@) is Some {
            assert(lv[0] == before[0]);
        }
    }
    out
}

/// Two spaces per list level below the first, then the bullet.
pub open spec fn bullet(depth: usize) -> Seq<char> {
    spaces(if depth > 0 {
        (depth - 1) as nat
    } else {
        0
    }) + "• "@
}

/// The renderer after an event other than text and the end of a code block,
/// `d` being the gathered text drained into the buffer.
pub open spec fn step_ok(o: &MdRenderer, f: &MdRenderer, ev: MdEventView) -> bool {
    let d = drained(o);
    let has = drained_has(o);
    let st = o.current.state();
    let body = plain(Tint::Body);
    &&& f.width == o.width
    &&& f.text_acc@.len() == 0
    &&& opt_str(f.code_lang) == (match ev {
        MdEventView::Start(MdTagView::CodeBlock(info)) => fence_lang(info),
        _ => opt_str(o.code_lang),
    })
    &&& f.code_buf@ == o.code_buf@
    &&& f.in_code_block == (ev matches MdEventView::Start(MdTagView::CodeBlock(_)) || o.in_code_block)
    &&& f.heading_level == (match ev {
        MdEventView::Start(MdTagView::Heading(l)) => l,
        MdEventView::End => if closing(o) is Heading {
            0
        } else {
            o.heading_level
        },
        _ => o.heading_level,
    })
    &&& f.list_depth == (match ev {
        MdEventView::Start(MdTagView::List) => (o.list_depth + 1) as usize,
        MdEventView::End => if closing(o) == OpenTag::List {
            (if o.list_depth > 0 {
                o.list_depth - 1
            } else {
                0
            }) as usize
        } else {
            o.list_depth
        },
        _ => o.list_depth,
    })
    &&& f.open_tags@ == (match ev {
        MdEventView::Start(t) => o.open_tags@.push(open_kind(t)),
        MdEventView::End => if o.open_tags@.len() > 0 {
            o.open_tags@.drop_last()
        } else {
            o.open_tags@
        },
        _ => o.open_tags@,
    })
    &&& f.current.bold == (o.current.bold != (match ev {
        MdEventView::Start(MdTagView::Strong) => true,
        MdEventView::End => closing(o) == OpenTag::Strong,
        _ => false,
    }))
    &&& f.current.italic == (o.current.italic != (match ev {
        MdEventView::Start(MdTagView::Emphasis) => true,
        MdEventView::End => closing(o) == OpenTag::Emphasis,
        _ => false,
    }))
    &&& f.current.style_stack@ == o.current.style_stack@
    // Blocks that end flush the buffer into lines; a paragraph adds an empty line.
    &&& lines_view(f.lines@) == lines_view(o.lines@) + (match ev {
        MdEventView::End => match closing(o) {
            OpenTag::Heading(l) => if has {
                flush_spec(d, o.width as int, heading_style(l as int))
            } else {
                Seq::empty()
            },
            OpenTag::Paragraph => (if has {
                flush_spec(d, o.width as int, body)
            } else {
                Seq::empty()
            }).push(Seq::empty()),
            OpenTag::Item => if has {
                flush_spec(d, o.width as int, body)
            } else {
                Seq::empty()
            },
            _ => Seq::empty(),
        },
        _ => Seq::empty(),
    })
    // What the buffer holds afterwards.
    &&& match ev {
        MdEventView::Start(MdTagView::Heading(_)) => f.current.spans@.len() == 0,
        MdEventView::Start(MdTagView::Paragraph) => f.current.spans@.len() == 0,
        MdEventView::Start(MdTagView::Item) => f.current.spans@.len() > 0 && f.current.stream()
            == in_state(bullet(o.list_depth), st),
        MdEventView::End => match closing(o) {
            OpenTag::Heading(_) | OpenTag::Paragraph | OpenTag::Item => f.current.spans@.len() == 0,
            _ => f.current.stream() == d && (f.current.spans@.len() > 0 <==> has),
        },
        MdEventView::Code(t) => f.current.spans@.len() > 0 && f.current.stream() == d + in_state(
            t,
            StyleState { extra: Some(Tint::CodeInline), ..st },
        ),
        MdEventView::Break => f.current.spans@.len() > 0 && f.current.stream() == d + seq![
            ('\n', st),
        ],
        _ => f.current.stream() == d && (f.current.spans@.len() > 0 <==> has),
    }
}

impl MdRenderer {
    /// Whether the innermost open element is a code block.
    fn closing_code(&self) -> (r: bool)
        ensures
            r == (closing(self) == OpenTag::CodeBlock),
    {
        let n = self.open_tags.len();
        n > 0 && self.open_tags[n - 1] == OpenTag::CodeBlock
    }

    fn start(&mut self, tag: MdTag)
        requires
            old(self).text_acc@.len() == 0,
            old(self).list_depth < usize::MAX,
        ensures
            final(self).width == old(self).width,
            final(self).text_acc@.len() == 0,
            final(self).code_buf@ == old(self).code_buf@,
            final(self).lines@ == old(self).lines@,
            final(self).open_tags@ == old(self).open_tags@.push(open_kind(tag@)),
            opt_str(final(self).code_lang) == (match tag@ {
                MdTagView::CodeBlock(info) => fence_lang(info),
                _ => opt_str(old(self).code_lang),
            }),
            final(self).in_code_block == (tag@ is CodeBlock || old(self).in_code_block),
            final(self).heading_level == (match tag@ {
                MdTagView::Heading(l) => l,
                _ => old(self).heading_level,
            }),
            final(self).list_depth == (if tag@ is List {
                (old(self).list_depth + 1) as usize
            } else {
                old(self).list_depth
            }),
            final(self).current.bold == (old(self).current.bold != (tag@ is Strong)),
            final(self).current.italic == (old(self).current.italic != (tag@ is Emphasis)),
            final(self).current.style_stack@ == old(self).current.style_stack@,
            match tag@ {
                MdTagView::Heading(_) => final(self).current.spans@.len() == 0,
                MdTagView::Paragraph => final(self).current.spans@.len() == 0,
                MdTagView::Item => final(self).current.spans@.len() > 0 && final(self).current.stream()
                    == in_state(bullet(old(self).list_depth), old(self).current.state()),
                _ => final(self).current.stream() == old(self).current.stream() && final(self).current.spans@ == old(self).current.spans@,
            },
    {
        let kind = match &tag {
            MdTag::Heading(l) => OpenTag::Heading(*l),
            MdTag::CodeBlock(_) => OpenTag::CodeBlock,
            MdTag::Paragraph => OpenTag::Paragraph,
            MdTag::List => OpenTag::List,
            MdTag::Item => OpenTag::Item,
            MdTag::Strong => OpenTag::Strong,
            MdTag::Emphasis => OpenTag::Emphasis,
            MdTag::Other => OpenTag::Other,
        };
        self.open_tags.push(kind);
        match tag {
            MdTag::Heading(l) => {
                self.heading_level = l;
                self.current.clear();
            },
            MdTag::CodeBlock(info) => {
                self.in_code_block = true;
                self.code_lang = match info {
                    Some(i) => lang_tag(i.as_str()),
                    None => None,
                };
            },
            MdTag::Paragraph => self.current.clear(),
            MdTag::List => self.list_depth = self.list_depth + 1,
            MdTag::Item => {
                self.current.clear();
                let n = if self.list_depth > 0 {
                    self.list_depth - 1
                } else {
                    0
                };
                let mut pad = String::new();
                let mut k: usize = 0;
                while k < n
                    invariant
                        k <= n,
                        pad@ == spaces(k as nat),
                    decreases n - k,
                {
                    pad.push_str("  ");
                    proof {
                        reveal_strlit("  ");
                        assert(pad@ =~= spaces((k + 1) as nat));
                    }
                    k = k + 1;
                }
                pad.push_str("• ");
                proof {
                    reveal_strlit("• ");
                    assert(pad@ =~= bullet(self.list_depth));
                    assert(stream_of(Seq::<(String, StyleState)>::empty()) =~= Seq::<(char, StyleState)>::empty());
                }
                self.current.push_str(pad.as_str());
            },
            MdTag::Strong => self.current.toggle_bold(),
            MdTag::Emphasis => self.current.toggle_italic(),
            MdTag::Other => {},
        }
    }
}

impl MdRenderer {
    fn end(&mut self)
        requires
            old(self).text_acc@.len() == 0,
            closing(old(self)) != OpenTag::CodeBlock,
        ensures
            final(self).width == old(self).width,
            final(self).text_acc@.len() == 0,
            final(self).code_buf@ == old(self).code_buf@,
            final(self).code_lang == old(self).code_lang,
            final(self).in_code_block == old(self).in_code_block,
            final(self).open_tags@ == (if old(self).open_tags@.len() > 0 {
                old(self).open_tags@.drop_last()
            } else {
                old(self).open_tags@
            }),
            final(self).heading_level == (if closing(old(self)) is Heading {
                0
            } else {
                old(self).heading_level
            }),
            final(self).list_depth == (if closing(old(self)) == OpenTag::List {
                (if old(self).list_depth > 0 {
                    old(self).list_depth - 1
                } else {
                    0
                }) as usize
            } else {
                old(self).list_depth
            }),
            final(self).current.bold == (old(self).current.bold != (closing(old(self))
                == OpenTag::Strong)),
            final(self).current.italic == (old(self).current.italic != (closing(old(self))
                == OpenTag::Emphasis)),
            final(self).current.style_stack@ == old(self).current.style_stack@,
            ({
                let has = old(self).current.spans@.len() > 0;
                let d = old(self).current.stream();
                let body = plain(Tint::Body);
                lines_view(final(self).lines@) == lines_view(old(self).lines@) + (match closing(
                    old(self),
                ) {
                    OpenTag::Heading(l) => if has {
                        flush_spec(d, old(self).width as int, heading_style(l as int))
                    } else {
                        Seq::empty()
                    },
                    OpenTag::Paragraph => (if has {
                        flush_spec(d, old(self).width as int, body)
                    } else {
                        Seq::empty()
                    }).push(Seq::empty()),
                    OpenTag::Item => if has {
                        flush_spec(d, old(self).width as int, body)
                    } else {
                        Seq::empty()
                    },
                    _ => Seq::empty(),
                })
            }),
            match closing(old(self)) {
                OpenTag::Heading(_) | OpenTag::Paragraph | OpenTag::Item => final(self).current.spans@.len() == 0,
                _ => final(self).current.stream() == old(self).current.stream() && final(self).current.spans@ == old(self).current.spans@,
            },
    {
        let kind = if self.open_tags.len() > 0 {
            self.open_tags.pop().unwrap()
        } else {
            OpenTag::Other
        };
        match kind {
            OpenTag::Heading(l) => {
                let style = SpanStyle {
                    fg: Some(if l == 1 {
                        Tint::Heading
                    } else {
                        Tint::SubHeading
                    }),
                    bold: true,
                    italic: false,
                };
                self.end_block(style);
                self.heading_level = 0;
            },
            OpenTag::Paragraph => {
                self.end_block(SpanStyle { fg: Some(Tint::Body), bold: false, italic: false });
                let ghost l0 = lines_view(self.lines@);
                self.lines.push(StyledLine { spans: Vec::new() });
                proof {
                    assert(line_chars(Seq::<StyledSpan>::empty()) =~= Seq::<(char, SpanStyle)>::empty());
                    assert(lines_view(self.lines@) =~= l0.push(Seq::empty()));
                }
            },
            OpenTag::List => {
                if self.list_depth > 0 {
                    self.list_depth = self.list_depth - 1;
                }
            },
            OpenTag::Item => self.end_block(SpanStyle { fg: Some(Tint::Body), bold: false, italic: false }),
            OpenTag::Strong => self.current.toggle_bold(),
            OpenTag::Emphasis => self.current.toggle_italic(),
            _ => {},
        }
        proof {
            assert(lines_view(self.lines@) =~= lines_view(self.lines@));
        }
    }

    /// Feeds one event.
    pub fn feed(&mut self, engine: &Engine, ev: MdEvent)
        requires
            engine.wf(),
            old(self).list_depth < usize::MAX,
        ensures
            final(self).width == old(self).width,
            final(self).list_depth <= old(self).list_depth + 1,
            ev@ matches MdEventView::Text(t) ==> {
                &&& final(self).lines@ == old(self).lines@
                &&& final(self).current.spans@ == old(self).current.spans@
                &&& same_emphasis(&final(self).current, &old(self).current)
                &&& same_frame(final(self), old(self))
                &&& if old(self).in_code_block {
                    final(self).code_buf@ == old(self).code_buf@ + t && final(self).text_acc@
                        == old(self).text_acc@
                } else {
                    final(self).text_acc@ == old(self).text_acc@ + t && final(self).code_buf@
                        == old(self).code_buf@
                }
            },
            (ev@ is End && closing(old(self)) == OpenTag::CodeBlock) ==> {
                &&& code_block_lines(
                    lines_view(final(self).lines@).skip(old(self).lines@.len() as int),
                    old(self).code_buf@,
                    or_blank(opt_str(old(self).code_lang)),
                )
                &&& lines_view(final(self).lines@).take(old(self).lines@.len() as int) == lines_view(
                    old(self).lines@,
                )
                &&& !final(self).in_code_block
                &&& final(self).code_buf@.len() == 0
                &&& final(self).code_lang is None
                &&& final(self).open_tags@ == old(self).open_tags@.drop_last()
                &&& final(self).current.spans@ == old(self).current.spans@
                &&& same_emphasis(&final(self).current, &old(self).current)
                &&& final(self).text_acc@ == old(self).text_acc@
            },
            !(ev@ is Text) && !(ev@ is End && closing(old(self)) == OpenTag::CodeBlock) ==> step_ok(
                old(self),
                final(self),
                ev@,
            ),
    {
        match ev {
            MdEvent::Text(t) => {
                if self.in_code_block {
                    self.code_buf.push_str(t.as_str());
                } else {
                    self.text_acc.push_str(t.as_str());
                }
            },
            MdEvent::End => {
                if self.closing_code() {
                    self.end_code_block(engine);
                } else {
                    self.drain_text();
                    self.end();
                }
            },
            MdEvent::Start(tag) => {
                self.drain_text();
                self.start(tag);
            },
            MdEvent::Code(t) => {
                self.drain_text();
                self.current.push_style(Tint::CodeInline);
                self.current.push_str(t.as_str());
                self.current.pop_style();
                proof {
                    assert(self.current.style_stack@ =~= old(self).current.style_stack@);
                }
            },
            MdEvent::Break => {
                self.drain_text();
                self.current.newline();
            },
            MdEvent::Ignored => {
                self.drain_text();
            },
        }
    }

    /// The lines after the last event: what is left in the buffer is flushed
    /// (as a level-1 heading inside a heading, as body text otherwise).
    pub fn finish(&mut self) -> (r: Vec<StyledLine>)
        ensures
            ({
                let d = drained(old(self));
                let style = if old(self).heading_level > 0 {
                    heading_style(1)
                } else {
                    plain(Tint::Body)
                };
                lines_view(r@) == lines_view(old(self).lines@) + (if d.len() > 0 {
                    flush_spec(d, old(self).width as int, style)
                } else {
                    Seq::empty()
                })
            }),
    {
        self.drain_text();
        if !self.current.is_empty() {
            let style = if self.heading_level > 0 {
                SpanStyle { fg: Some(Tint::Heading), bold: true, italic: false }
            } else {
                SpanStyle { fg: Some(Tint::Body), bold: false, italic: false }
            };
            proof {
                lemma_stream_nonempty_has_spans(self.current.spans@);
            }
            self.end_block(style);
        }
        let mut out: Vec<StyledLine> = Vec::new();
        std::mem::swap(&mut out, &mut self.lines);
        out
    }
}

proof fn lemma_stream_nonempty_has_spans(spans: Seq<(String, StyleState)>)
    requires
        stream_of(spans).len() > 0,
    ensures
        spans.len() > 0,
{
}

/// A renderer as `MdRenderer::new(width)` makes it.
pub open spec fn fresh_renderer(r: MdRenderer, width: usize) -> bool {
    &&& r.width == width
    &&& r.lines@.len() == 0
    &&& r.current.spans@.len() == 0 && !r.current.bold && !r.current.italic
        && r.current.style_stack@.len() == 0
    &&& !r.in_code_block
    &&& r.heading_level == 0
    &&& r.list_depth == 0
    &&& r.text_acc@.len() == 0
    &&& r.code_lang is None
    &&& r.code_buf@.len() == 0
    &&& r.open_tags@.len() == 0
}

/// What one event does to the renderer (as `feed` states it).
pub open spec fn feed_ok(o: MdRenderer, f: MdRenderer, ev: MdEventView) -> bool {
    &&& f.width == o.width
    &&& f.list_depth <= o.list_depth + 1
    &&& ev matches MdEventView::Text(t) ==> {
        &&& f.lines@ == o.lines@
        &&& f.current.spans@ == o.current.spans@
        &&& same_emphasis(&f.current, &o.current)
        &&& same_frame(&f, &o)
        &&& if o.in_code_block {
            f.code_buf@ == o.code_buf@ + t && f.text_acc@ == o.text_acc@
        } else {
            f.text_acc@ == o.text_acc@ + t && f.code_buf@ == o.code_buf@
        }
    }
    &&& (ev is End && closing(&o) == OpenTag::CodeBlock) ==> {
        &&& code_block_lines(
            lines_view(f.lines@).skip(o.lines@.len() as int),
            o.code_buf@,
            or_blank(opt_str(o.code_lang)),
        )
        &&& lines_view(f.lines@).take(o.lines@.len() as int) == lines_view(o.lines@)
        &&& !f.in_code_block
        &&& f.code_buf@.len() == 0
        &&& f.code_lang is None
        &&& f.open_tags@ == o.open_tags@.drop_last()
        &&& f.current.spans@ == o.current.spans@
        &&& same_emphasis(&f.current, &o.current)
        &&& f.text_acc@ == o.text_acc@
    }
    &&& !(ev is Text) && !(ev is End && closing(&o) == OpenTag::CodeBlock) ==> step_ok(&o, &f, ev)
}

/// The lines `finish` gives for a renderer: its lines, then what is still
/// collected, flushed in the style of the open heading (body otherwise).
pub open spec fn finish_lines(o: MdRenderer) -> Seq<Seq<(char, SpanStyle)>> {
    let d = drained(&o);
    let style = if o.heading_level > 0 {
        heading_style(1)
    } else {
        plain(Tint::Body)
    };
    lines_view(o.lines@) + (if d.len() > 0 {
        flush_spec(d, o.width as int, style)
    } else {
        Seq::empty()
    })
}

/// `out` is what feeding `events` one by one to a fresh renderer of
/// `width` columns and finishing gives; when that is nothing, one body line
/// holding `text` as it is.
pub open spec fn rendered(
    events: Seq<MdEventView>,
    text: Seq<char>,
    width: usize,
    out: Seq<Seq<(char, SpanStyle)>>,
) -> bool {
    exists|trace: Seq<MdRenderer>|
        {
            &&& trace.len() == events.len() + 1
            &&& fresh_renderer(trace[0], width)
            &&& forall|k: int| 0 <= k < events.len() ==> #[trigger] feed_ok(trace[k], trace[k + 1], events[k])
            &&& out == if finish_lines(trace.last()).len() > 0 {
                finish_lines(trace.last())
            } else {
                seq![tinted(text, Tint::Body)]
            }
        }
}

/// A copy of an event.
fn copy_event(e: &MdEvent) -> (r: MdEvent)
    ensures
        r@ == e@,
{
    match e {
        MdEvent::Start(t) => MdEvent::Start(
            match t {
                MdTag::Heading(l) => MdTag::Heading(*l),
                MdTag::CodeBlock(info) => MdTag::CodeBlock(
                    match info {
                        Some(s) => Some(s.clone()),
                        None => None,
                    },
                ),
                MdTag::Paragraph => MdTag::Paragraph,
                MdTag::List => MdTag::List,
                MdTag::Item => MdTag::Item,
                MdTag::Strong => MdTag::Strong,
                MdTag::Emphasis => MdTag::Emphasis,
                MdTag::Other => MdTag::Other,
            },
        ),
        MdEvent::End => MdEvent::End,
        MdEvent::Text(t) => MdEvent::Text(t.clone()),
        MdEvent::Code(t) => MdEvent::Code(t.clone()),
        MdEvent::Break => MdEvent::Break,
        MdEvent::Ignored => MdEvent::Ignored,
    }
}

/// Renders a parsed event stream of `text` (see `rendered`); width 0 gives
/// nothing.
pub fn render_events(engine: &Engine, events: &Vec<MdEvent>, text: &str, width: usize) -> (r: Vec<StyledLine>)
    requires
        engine.wf(),
    ensures
        width == 0 ==> r@.len() == 0,
        width > 0 ==> r@.len() > 0 && rendered(events_view(events@), text@, width, lines_view(r@)),
        width > 0 && events@.len() == 0 ==> lines_view(r@) == seq![tinted(text@, Tint::Body)],
{
    if width == 0 {
        return Vec::new();
    }
    let mut r = MdRenderer::new(width);
    let ghost mut trace: Seq<MdRenderer> = seq![r];
    let mut i: usize = 0;
    let n = events.len();
    while i < n
        invariant
            engine.wf(),
            i <= n,
            n == events.len(),
            r.list_depth <= i,
            r.width == width,
            i == 0 ==> r.lines@.len() == 0 && r.text_acc@.len() == 0 && r.current.spans@.len() == 0,
            trace.len() == i + 1,
            fresh_renderer(trace[0], width),
            trace.last() == r,
            forall|k: int| 0 <= k < i ==> #[trigger] feed_ok(trace[k], trace[k + 1], events_view(events@)[k]),
        decreases n - i,
    {
        let ev = copy_event(&events[i]);
        let ghost before = r;
        proof {
            assert(ev@ == events_view(events@)[i as int]);
        }
        r.feed(engine, ev);
        proof {
            assert(feed_ok(before, r, events_view(events@)[i as int]));
            let t2 = trace.push(r);
            assert forall|k: int| 0 <= k < i + 1 implies #[trigger] feed_ok(t2[k], t2[k + 1], events_view(events@)[k]) by {
                if k < i {
                    assert(t2[k] == trace[k] && t2[k + 1] == trace[k + 1]);
                } else {
                    assert(t2[k] == before && t2[k + 1] == r);
                }
            }
            trace = t2;
        }
        i = i + 1;
    }
    let ghost last = r;
    let mut lines = r.finish();
    proof {
        assert(lines_view(lines@) == finish_lines(last));
    }
    if lines.len() == 0 {
        let l = one_span_line(text.to_owned(), Tint::Body);
        lines.push(l);
        proof {
            assert(l.spans@.drop_last() =~= Seq::<StyledSpan>::empty());
            assert(line_chars(Seq::<StyledSpan>::empty()) =~= Seq::<(char, SpanStyle)>::empty());
            assert(span_chars(l.spans@.last()) =~= tinted(text@, Tint::Body));
            assert(lines_view(lines@) =~= seq![tinted(text@, Tint::Body)]);
        }
    } else {
        proof {
            if events@.len() == 0 {
                assert(lines_view(last.lines@).len() == 0);
            }
        }
    }
    proof {
        assert(trace.len() == events_view(events@).len() + 1);
        assert(rendered(events_view(events@), text@, width, lines_view(lines@)));
    }
    lines
}

/// Renders Markdown into lines at most `width` columns wide (a character
/// wider than the whole line keeps a line of its own): the text is parsed
/// (see `markdown_events`) and the events rendered (see `render_events`).
/// A text without any block gives one body line with the text as it is;
/// width 0 gives nothing.
pub fn render_markdown(engine: &Engine, text: &str, width: usize) -> (r: Vec<StyledLine>)
    requires
        engine.wf(),
    ensures
        width == 0 ==> r@.len() == 0,
        width > 0 ==> r@.len() > 0 && rendered(markdown_events_of(text@), text@, width, lines_view(r@)),
        width > 0 && markdown_events_of(text@).len() == 0 ==> lines_view(r@) == seq![
            tinted(text@, Tint::Body),
        ],
{
    if width == 0 {
        return Vec::new();
    }
    let events = markdown_events(text);
    render_events(engine, &events, text, width)
}

// ---------------------------------------------------------------------------
// Laws of the line buffer
// ---------------------------------------------------------------------------
/// The lines joined back together.
pub open spec fn joined<A>(ls: Seq<Seq<A>>) -> Seq<A>
    decreases ls.len(),
{
    if ls.len() == 0 {
        Seq::empty()
    } else {
        joined(ls.drop_last()) + ls.last()
    }
}

/// `s` without its line breaks.
pub open spec fn without_breaks(s: Seq<(char, SpanStyle)>) -> Seq<(char, SpanStyle)>
    decreases s.len(),
{
    if s.len() == 0 {
        Seq::empty()
    } else if s.last().0 == '\n' {
        without_breaks(s.drop_last())
    } else {
        without_breaks(s.drop_last()).push(s.last())
    }
}

/// Columns a line takes.
pub open spec fn line_width(l: Seq<(char, SpanStyle)>) -> int
    decreases l.len(),
{
    if l.len() == 0 {
        0
    } else {
        line_width(l.drop_last()) + cols(l.last().0)
    }
}

proof fn lemma_joined_concat<A>(a: Seq<Seq<A>>, b: Seq<Seq<A>>)
    ensures
        joined(a + b) == joined(a) + joined(b),
    decreases b.len(),
{
    if b.len() == 0 {
        assert(a + b =~= a);
        assert(joined(a) + Seq::<A>::empty() =~= joined(a));
    } else {
        lemma_joined_concat(a, b.drop_last());
        assert((a + b).drop_last() =~= a + b.drop_last());
        assert(joined(a) + joined(b.drop_last()) + b.last() =~= joined(a) + (joined(b.drop_last())
            + b.last()));
    }
}

proof fn lemma_joined_single<A>(x: Seq<A>)
    ensures
        joined(seq![x]) == x,
{
    assert(seq![x].drop_last() =~= Seq::<Seq<A>>::empty());
    assert(joined(Seq::<Seq<A>>::empty()) == Seq::<A>::empty());
    assert(seq![x].last() == x);
    assert(Seq::<A>::empty() + x =~= x);
}

proof fn lemma_wrap_from_keeps(seg: Seq<(char, SpanStyle)>, w: int, i: int, cur: Seq<(char, SpanStyle)>, used: int)
    requires
        0 <= i <= seg.len(),
    ensures
        joined(wrap_from(seg, w, i, cur, used)) == cur + seg.skip(i),
    decreases seg.len() - i,
{
    if i >= seg.len() {
        lemma_joined_single(cur);
        assert(cur + seg.skip(i) =~= cur);
    } else {
        let cw = cols(seg[i].0);
        if cw > 0 && used + cw > w && used > 0 {
            lemma_wrap_from_keeps(seg, w, i + 1, seq![seg[i]], cw);
            lemma_joined_concat(seq![cur], wrap_from(seg, w, i + 1, seq![seg[i]], cw));
            lemma_joined_single(cur);
            assert(cur + (seq![seg[i]] + seg.skip(i + 1)) =~= cur + seg.skip(i));
        } else {
            lemma_wrap_from_keeps(seg, w, i + 1, cur.push(seg[i]), used + cw);
            assert(cur.push(seg[i]) + seg.skip(i + 1) =~= cur + seg.skip(i));
        }
    }
}

proof fn lemma_wrap_segments_keeps(segs: Seq<Seq<(char, SpanStyle)>>, w: int, k: int)
    requires
        0 <= k <= segs.len(),
    ensures
        joined(wrap_segments(segs, w, k)) == joined(segs.skip(k)),
    decreases segs.len() - k,
{
    if k >= segs.len() {
        assert(segs.skip(k) =~= Seq::<Seq<(char, SpanStyle)>>::empty());
    } else {
        lemma_wrap_segments_keeps(segs, w, k + 1);
        let head = if k > 0 && segs[k].len() == 0 {
            Seq::<Seq<(char, SpanStyle)>>::empty()
        } else {
            wrap(segs[k], w)
        };
        lemma_joined_concat(head, wrap_segments(segs, w, k + 1));
        lemma_joined_concat(seq![segs[k]], segs.skip(k + 1));
        assert(segs.skip(k) =~= seq![segs[k]] + segs.skip(k + 1));
        lemma_joined_single(segs[k]);
        if k > 0 && segs[k].len() == 0 {
            assert(joined(head) =~= segs[k]);
        } else {
            lemma_wrap_from_keeps(segs[k], w, 0, Seq::empty(), 0);
            assert(Seq::<(char, SpanStyle)>::empty() + segs[k].skip(0) =~= segs[k]);
        }
    }
}

proof fn lemma_split_keeps(s: Seq<(char, SpanStyle)>)
    ensures
        joined(split_nl(s)) == without_breaks(s),
        split_nl(s).len() > 0,
    decreases s.len(),
{
    if s.len() == 0 {
        lemma_joined_single(Seq::<(char, SpanStyle)>::empty());
    } else {
        lemma_split_keeps(s.drop_last());
        let prev = split_nl(s.drop_last());
        if s.last().0 == '\n' {
            assert(prev.push(Seq::empty()).drop_last() =~= prev);
            assert(joined(prev) + Seq::<(char, SpanStyle)>::empty() =~= joined(prev));
        } else {
            let n = prev.len();
            let upd = prev.update(n - 1, prev.last().push(s.last()));
            assert(upd.drop_last() =~= prev.drop_last());
            assert(prev.drop_last().push(prev.last()) =~= prev);
            assert(joined(prev) == joined(prev.drop_last()) + prev.last());
            assert(joined(upd) =~= joined(prev).push(s.last()));
        }
    }
}

/// Flushing loses no character: the flushed lines, joined, are the
/// collected text without its line breaks, each character in its final style.
pub proof fn law_flush_keeps_text(stream: Seq<(char, StyleState)>, width: int, base: SpanStyle)
    ensures
        joined(flush_spec(stream, width, base)) == without_breaks(styled(stream, base)),
{
    let segs = split_nl(styled(stream, base));
    lemma_split_keeps(styled(stream, base));
    lemma_wrap_segments_keeps(segs, width, 0);
    assert(segs.skip(0) =~= segs);
}

/// Characters of a line that take at least one column.
pub open spec fn visible_count(l: Seq<(char, SpanStyle)>) -> int
    decreases l.len(),
{
    if l.len() == 0 {
        0
    } else {
        visible_count(l.drop_last()) + if cols(l.last().0) > 0 { 1int } else { 0int }
    }
}

/// A line fits `w` columns, or holds a single visible character.
pub open spec fn fits_or_single(l: Seq<(char, SpanStyle)>, w: int) -> bool {
    line_width(l) <= w || visible_count(l) == 1
}

proof fn lemma_wrap_from_fits(seg: Seq<(char, SpanStyle)>, w: int, i: int, cur: Seq<(char, SpanStyle)>, used: int)
    requires
        0 <= i <= seg.len(),
        used == line_width(cur),
        used >= 0,
        used == 0 ==> visible_count(cur) == 0,
        fits_or_single(cur, w),
        forall|c: char| cols(c) >= 0,
    ensures
        forall|k: int|
            0 <= k < wrap_from(seg, w, i, cur, used).len() ==> fits_or_single(
                #[trigger] wrap_from(seg, w, i, cur, used)[k],
                w,
            ),
    decreases seg.len() - i,
{
    if i >= seg.len() {
        assert(seq![cur][0] == cur);
        assert(wrap_from(seg, w, i, cur, used) == seq![cur]);
    } else {
        let cw = cols(seg[i].0);
        if cw > 0 && used + cw > w && used > 0 {
            let one = seq![seg[i]];
            assert(one.drop_last() =~= Seq::<(char, SpanStyle)>::empty());
            assert(one.last() == seg[i]);
            assert(line_width(Seq::<(char, SpanStyle)>::empty()) == 0);
            assert(visible_count(Seq::<(char, SpanStyle)>::empty()) == 0);
            assert(line_width(one) == cw);
            assert(visible_count(one) == 1);
            lemma_wrap_from_fits(seg, w, i + 1, one, cw);
            let rest = wrap_from(seg, w, i + 1, one, cw);
            assert forall|k: int| 0 <= k < (seq![cur] + rest).len() implies fits_or_single(
                #[trigger] (seq![cur] + rest)[k],
                w,
            ) by {
                if k > 0 {
                    assert((seq![cur] + rest)[k] == rest[k - 1]);
                } else {
                    assert((seq![cur] + rest)[k] == cur);
                }
            }
            assert(wrap_from(seg, w, i, cur, used) == seq![cur] + rest);
        } else {
            let next = cur.push(seg[i]);
            assert(next.drop_last() =~= cur);
            assert(next.last() == seg[i]);
            assert(line_width(next) == used + cw);
            assert(visible_count(next) == visible_count(cur) + if cw > 0 { 1int } else { 0int });
            lemma_wrap_from_fits(seg, w, i + 1, next, used + cw);
            assert(wrap_from(seg, w, i, cur, used) == wrap_from(seg, w, i + 1, next, used + cw));
        }
    }
}

/// Every wrapped line fits the width, unless it holds a single visible
/// character (one wider than the whole width).
pub proof fn law_wrapped_lines_fit(seg: Seq<(char, SpanStyle)>, width: int)
    requires
        width >= 0,
    ensures
        forall|k: int|
            0 <= k < wrap(seg, width).len() ==> fits_or_single(#[trigger] wrap(seg, width)[k], width),
{
    assert forall|c: char| cols(c) >= 0 by {
        match width_of(c) {
            Some(x) => {},
            None => {},
        }
    }
    assert(line_width(Seq::<(char, SpanStyle)>::empty()) == 0);
    assert(visible_count(Seq::<(char, SpanStyle)>::empty()) == 0);
    lemma_wrap_from_fits(seg, width, 0, Seq::empty(), 0);
}

} // verus!
