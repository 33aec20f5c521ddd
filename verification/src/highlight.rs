//! Syntax highlighting of fenced code blocks (syntect, pure-Rust regex
//! backend).  Theme base16-ocean.dark; token foregrounds become RGB triples;
//! an unknown language falls back to plain text.
use vstd::prelude::*;
use syntect::easy::HighlightLines;
use syntect::highlighting::{Theme, ThemeSet};
use syntect::parsing::{SyntaxReference, SyntaxSet};
use crate::text::{all_ascii, ascii_lower, chars_of, is_ws, lowercase_of, string_of, to_lowercase, trim, trim_chars, vviews};

verus! {

#[verifier::external_type_specification]
#[verifier::external_body]
pub struct ExSyntaxSet(SyntaxSet);

#[verifier::external_type_specification]
#[verifier::external_body]
pub struct ExSyntaxReference(SyntaxReference);

#[verifier::external_type_specification]
#[verifier::external_body]
pub struct ExTheme(Theme);

#[verifier::external_type_specification]
#[verifier::external_body]
pub struct ExThemeSet(ThemeSet);

#[verifier::external_type_specification]
#[verifier::external_body]
pub struct ExHighlightLines<'a>(HighlightLines<'a>);

/// An RGB foreground colour.
pub type Rgb = (u8, u8, u8);

/// Foreground of a line whose highlighting failed (warm white).
pub const CODE_FG: Rgb = (0xE5, 0xC0, 0x7B);

/// What `SyntaxSet::find_syntax_plain_text` finds in a syntax set: the
/// syntax named "Plain Text" (`None`: there is none, and the call panics).
pub uninterp spec fn plain_text_of(ps: SyntaxSet) -> Option<SyntaxReference>;

/// What `SyntaxSet::find_syntax_by_token` returns for a token.
pub uninterp spec fn syntax_for_token(ps: SyntaxSet, token: Seq<char>) -> Option<SyntaxReference>;

/// What `SyntaxSet::find_syntax_by_extension` returns for an extension.
pub uninterp spec fn syntax_for_extension(ps: SyntaxSet, ext: Seq<char>) -> Option<SyntaxReference>;

/// Calls `SyntaxSet::load_defaults_newlines`: the bundled syntax
/// definitions.  The bundle holds the "Plain Text" syntax (syntect's
/// documentation: that syntax should always be present); nothing else is
/// stated of the set.
#[verifier::external_body]
fn default_syntaxes() -> (r: SyntaxSet)
    ensures
        plain_text_of(r) is Some,
{
    SyntaxSet::load_defaults_newlines()
}

/// Calls `ThemeSet::load_defaults`: the bundled themes.
#[verifier::external_body]
fn default_themes() -> ThemeSet {
    ThemeSet::load_defaults()
}

/// Removes the theme called `name` from `set.themes` and returns it.
#[verifier::external_body]
fn take_theme(set: &mut ThemeSet, name: &str) -> Option<Theme> {
    set.themes.remove(name)
}

/// Calls `Theme::default`.
#[verifier::external_body]
fn default_theme() -> Theme {
    Theme::default()
}

/// Calls `SyntaxSet::find_syntax_by_token`; the result is the named one.
#[verifier::external_body]
fn syntax_by_token<'a>(ps: &'a SyntaxSet, token: &str) -> (r: Option<&'a SyntaxReference>)
    ensures
        match r {
            Some(x) => syntax_for_token(*ps, token@) == Some(*x),
            None => syntax_for_token(*ps, token@) is None,
        },
{
    ps.find_syntax_by_token(token)
}

/// Calls `SyntaxSet::find_syntax_by_extension`; the result is the named one.
#[verifier::external_body]
fn syntax_by_extension<'a>(ps: &'a SyntaxSet, ext: &str) -> (r: Option<&'a SyntaxReference>)
    ensures
        match r {
            Some(x) => syntax_for_extension(*ps, ext@) == Some(*x),
            None => syntax_for_extension(*ps, ext@) is None,
        },
{
    ps.find_syntax_by_extension(ext)
}

/// Calls `SyntaxSet::find_syntax_plain_text`, which panics on a set
/// without the "Plain Text" syntax; the result is the named one.
#[verifier::external_body]
fn plain_text_syntax(ps: &SyntaxSet) -> (r: &SyntaxReference)
    requires
        plain_text_of(*ps) is Some,
    ensures
        plain_text_of(*ps) == Some(*r),
{
    ps.find_syntax_plain_text()
}

/// What `HighlightLines::new` makes of a syntax and a theme: a
/// highlighter at the start of a text.
pub uninterp spec fn fresh_highlighter(syntax: SyntaxReference, theme: Theme) -> HighlightLines<'static>;

/// What `HighlightLines::highlight_line` does to highlighter `hl` with line
/// `line` of syntax set `ps`: the highlighter after the line, and the
/// line's pieces as (foreground, text) (`Err` on failure).
pub uninterp spec fn highlight_step(hl: HighlightLines<'static>, line: Seq<char>, ps: SyntaxSet) -> (
    HighlightLines<'static>,
    Result<Seq<(Rgb, Seq<char>)>, ()>,
);

/// Calls `HighlightLines::new`; the result is the named highlighter.
#[verifier::external_body]
fn new_highlighter<'a>(syntax: &SyntaxReference, theme: &'a Theme) -> (r: HighlightLines<'a>)
    ensures
        r == fresh_highlighter(*syntax, *theme),
{
    HighlightLines::new(syntax, theme)
}

/// A row of pieces as values.
pub open spec fn pieces_view(row: Seq<(Rgb, String)>) -> Seq<(Rgb, Seq<char>)> {
    row.map_values(|p: (Rgb, String)| (p.0, p.1@))
}

/// The text of a row of highlighted pieces.
pub open spec fn row_text(row: Seq<(Rgb, String)>) -> Seq<char>
    decreases row.len(),
{
    if row.len() == 0 {
        Seq::empty()
    } else {
        row_text(row.drop_last()) + row.last().1@
    }
}

/// Calls `HighlightLines::highlight_line` and converts each styled piece to
/// its foreground colour and text; a failure becomes `Err(())`.  The new
/// highlighter and the pieces are the named step.  The pieces cut the line
/// without loss: syntect documents that the concatenation of the pieces is
/// the original line.
#[verifier::external_body]
fn highlight_one(hl: &mut HighlightLines, line: &str, ps: &SyntaxSet) -> (r: Result<Vec<(Rgb, String)>, ()>)
    ensures
        r matches Ok(v) ==> row_text(v@) == line@,
        *final(hl) == highlight_step(*old(hl), line@, *ps).0,
        match r {
            Ok(v) => highlight_step(*old(hl), line@, *ps).1 == Ok::<Seq<(Rgb, Seq<char>)>, ()>(pieces_view(v@)),
            Err(_) => highlight_step(*old(hl), line@, *ps).1 is Err,
        },
{
    match hl.highlight_line(line, ps) {
        Ok(ranges) => Ok(ranges.into_iter().map(|(s, t)| ((s.foreground.r, s.foreground.g, s.foreground.b), t.to_owned())).collect()),
        Err(_) => Err(()),
    }
}

/// Syntaxes and the theme, loaded once by the program and shared.
pub struct Engine {
    pub ps: SyntaxSet,
    pub theme: Theme,
}

impl Engine {
    /// The syntaxes hold "Plain Text", the fallback of every lookup.
    pub open spec fn wf(&self) -> bool {
        plain_text_of(self.ps) is Some
    }

    /// The bundled syntaxes with the base16-ocean.dark theme (the default
    /// theme when that one is missing).  The syntaxes hold the plain-text
    /// fallback; which theme was found is not stated (the bundled theme set
    /// has no name here).
    pub fn load() -> (r: Engine)
        ensures
            r.wf(),
    {
        let ps = default_syntaxes();
        let mut ts = default_themes();
        let theme = match take_theme(&mut ts, "base16-ocean.dark") {
            Some(t) => t,
            None => default_theme(),
        };
        Engine { ps, theme }
    }
}

/// `s` without its leading dots.
pub open spec fn drop_dots(s: Seq<char>) -> Seq<char>
    decreases s.len(),
{
    if s.len() > 0 && s[0] == '.' {
        drop_dots(s.drop_first())
    } else {
        s
    }
}

/// The syntax of a fence language: by the trimmed token, then by that
/// token without leading dots as an extension, then plain text.
pub open spec fn syntax_for(ps: SyntaxSet, lang: Seq<char>) -> SyntaxReference {
    let tok = trim(lang);
    match syntax_for_token(ps, tok) {
        Some(x) => x,
        None => match syntax_for_extension(ps, drop_dots(tok)) {
            Some(x) => x,
            None => plain_text_of(ps)->0,
        },
    }
}

/// Syntax for a fence language: by token, then by extension (leading dots
/// dropped), then plain text.
pub fn find_syntax<'a>(ps: &'a SyntaxSet, lang: &str) -> (r: &'a SyntaxReference)
    requires
        plain_text_of(*ps) is Some,
    ensures
        *r == syntax_for(*ps, lang@),
{
    let tok = string_of(&trim_chars(&chars_of(lang)));
    match syntax_by_token(ps, tok.as_str()) {
        Some(s) => s,
        None => {
            let tc = chars_of(tok.as_str());
            let mut k: usize = 0;
            assert(tc@.skip(0) =~= tc@);
            while k < tc.len() && tc[k] == '.'
                invariant
                    k <= tc.len(),
                    drop_dots(tc@) == drop_dots(tc@.skip(k as int)),
                decreases tc.len() - k,
            {
                assert(tc@.skip(k as int).drop_first() =~= tc@.skip(k + 1));
                k = k + 1;
            }
            let ext = string_of(tc.as_slice().split_at(k).1);
            proof {
                assert(ext@ =~= tc@.skip(k as int));
                if k < tc.len() {
                    assert(tc@.skip(k as int)[0] == tc@[k as int]);
                } else {
                    assert(tc@.skip(k as int) =~= Seq::<char>::empty());
                }
            }
            match syntax_by_extension(ps, ext.as_str()) {
                Some(s) => s,
                None => plain_text_syntax(ps),
            }
        },
    }
}

/// The lines of `s` as `LinesWithEndings` yields them: each piece ends
/// right after a `\n`; a last piece without `\n` only when non-empty.
pub open spec fn lines_with_endings(s: Seq<char>) -> Seq<Seq<char>>
    decreases s.len(),
{
    if s.len() == 0 {
        Seq::empty()
    } else {
        let prev = lines_with_endings(s.drop_last());
        if s.len() == 1 || s[s.len() - 2] == '\n' {
            prev.push(seq![s.last()])
        } else {
            prev.update(prev.len() - 1, prev.last().push(s.last()))
        }
    }
}

proof fn lemma_lines_nonempty(s: Seq<char>)
    ensures
        s.len() > 0 ==> lines_with_endings(s).len() > 0,
        s.len() > 0 ==> lines_with_endings(s).last().len() > 0,
    decreases s.len(),
{
    if s.len() > 0 {
        lemma_lines_nonempty(s.drop_last());
    }
}

/// A line without its `\n`, then without its `\r`.
pub open spec fn strip_eol(l: Seq<char>) -> Seq<char> {
    let a = if l.len() > 0 && l.last() == '\n' {
        l.drop_last()
    } else {
        l
    };
    if a.len() > 0 && a.last() == '\r' {
        a.drop_last()
    } else {
        a
    }
}

/// `LinesWithEndings` collected.
pub fn lines_with_endings_of(s: &[char]) -> (r: Vec<Vec<char>>)
    ensures
        crate::text::vviews(r@) == lines_with_endings(s@),
{
    let mut r: Vec<Vec<char>> = Vec::new();
    let mut i: usize = 0;
    while i < s.len()
        invariant
            i <= s.len(),
            crate::text::vviews(r@) == lines_with_endings(s@.take(i as int)),
        decreases s.len() - i,
    {
        let ghost pre = s@.take(i as int);
        assert(s@.take(i + 1).drop_last() =~= pre);
        proof {
            lemma_lines_nonempty(pre);
        }
        if i == 0 || s[i - 1] == '\n' {
            let mut l: Vec<char> = Vec::new();
            l.push(s[i]);
            let ghost r0 = crate::text::vviews(r@);
            r.push(l);
            assert(crate::text::vviews(r@) =~= r0.push(seq![s@[i as int]]));
        } else {
            let last = r.len() - 1;
            let mut l = r.pop().unwrap();
            l.push(s[i]);
            r.push(l);
            assert(crate::text::vviews(r@) =~= lines_with_endings(pre).update(
                last as int,
                lines_with_endings(pre)[last as int].push(s@[i as int]),
            ));
        }
        i = i + 1;
    }
    assert(s@.take(s.len() as int) =~= s@);
    r
}

fn strip_eol_exec(l: &Vec<char>) -> (r: Vec<char>)
    ensures
        r@ == strip_eol(l@),
{
    let mut v = l.clone();
    assert(v@ == l@);
    if v.len() > 0 && v[v.len() - 1] == '\n' {
        v.pop();
    }
    if v.len() > 0 && v[v.len() - 1] == '\r' {
        v.pop();
    }
    v
}

/// The highlighter after `lines`, starting from `hl`.
pub open spec fn highlighter_after(ps: SyntaxSet, hl: HighlightLines<'static>, lines: Seq<Seq<char>>) -> HighlightLines<'static>
    decreases lines.len(),
{
    if lines.len() == 0 {
        hl
    } else {
        highlight_step(highlighter_after(ps, hl, lines.drop_last()), lines.last(), ps).0
    }
}

/// Row `k` of highlighting `lines` from `hl`: the pieces of its step, or
/// the whole line in `CODE_FG` where the step fails.
pub open spec fn highlighted_row(ps: SyntaxSet, hl: HighlightLines<'static>, lines: Seq<Seq<char>>, k: int) -> Seq<
    (Rgb, Seq<char>),
> {
    match highlight_step(highlighter_after(ps, hl, lines.take(k)), lines[k], ps).1 {
        Ok(p) => p,
        Err(_) => seq![(CODE_FG, lines[k])],
    }
}

/// The lines of a code block, each without its line ending.
pub open spec fn code_lines(code: Seq<char>) -> Seq<Seq<char>> {
    lines_with_endings(code).map_values(|l: Seq<char>| strip_eol(l))
}

/// Highlights `code`: one row of `(foreground, text)` pieces per line (the
/// text without its line ending), at least one row.  The rows are those of
/// a highlighter for the fence language's syntax (`syntax_for`) and the
/// engine's theme, fed the lines in order; a line whose highlighting fails
/// becomes a single piece in `CODE_FG`.
pub fn highlight_lines(engine: &Engine, code: &str, lang: &str) -> (r: Vec<Vec<(Rgb, String)>>)
    requires
        engine.wf(),
    ensures
        r@.len() == if lines_with_endings(code@).len() == 0 {
            1
        } else {
            lines_with_endings(code@).len()
        },
        lines_with_endings(code@).len() == 0 ==> r@[0]@.len() == 0,
        forall|i: int|
            0 <= i < lines_with_endings(code@).len() ==> row_text(#[trigger] r@[i]@) == strip_eol(
                lines_with_endings(code@)[i],
            ),
        forall|i: int|
            0 <= i < lines_with_endings(code@).len() ==> pieces_view(#[trigger] r@[i]@) == highlighted_row(
                engine.ps,
                fresh_highlighter(syntax_for(engine.ps, lang@), engine.theme),
                code_lines(code@),
                i,
            ),
{
    let syntax = find_syntax(&engine.ps, lang);
    let mut hl = new_highlighter(syntax, &engine.theme);
    let ghost hl0 = hl;
    assert(code_lines(code@).take(0) =~= Seq::<Seq<char>>::empty());
    let lines = lines_with_endings_of(&chars_of(code));
    let mut out: Vec<Vec<(Rgb, String)>> = Vec::new();
    let mut i: usize = 0;
    while i < lines.len()
        invariant
            i <= lines.len(),
            out@.len() == i,
            vviews(lines@) == lines_with_endings(code@),
            forall|k: int| 0 <= k < i ==> row_text(#[trigger] out@[k]@) == strip_eol(vviews(lines@)[k]),
            hl == highlighter_after(engine.ps, hl0, code_lines(code@).take(i as int)),
            forall|k: int|
                0 <= k < i ==> pieces_view(#[trigger] out@[k]@) == highlighted_row(
                    engine.ps,
                    hl0,
                    code_lines(code@),
                    k,
                ),
        decreases lines.len() - i,
    {
        let ghost cl = code_lines(code@);
        proof {
            assert(cl.take(i + 1).drop_last() =~= cl.take(i as int));
            assert(cl[i as int] == strip_eol(vviews(lines@)[i as int]));
        }
        let trimmed = string_of(&strip_eol_exec(&lines[i]));
        let row = match highlight_one(&mut hl, trimmed.as_str(), &engine.ps) {
            Ok(spans) => spans,
            Err(_) => {
                let mut v: Vec<(Rgb, String)> = Vec::new();
                let ghost t = trimmed@;
                v.push((CODE_FG, trimmed));
                proof {
                    assert(v@.drop_last() =~= Seq::<(Rgb, String)>::empty());
                    assert(row_text(Seq::<(Rgb, String)>::empty()) == Seq::<char>::empty());
                    assert(row_text(v@) =~= t);
                    assert(pieces_view(v@) =~= seq![(CODE_FG, t)]);
                }
                v
            },
        };
        proof {
            assert(vviews(lines@)[i as int] == lines@[i as int]@);
        }
        out.push(row);
        i = i + 1;
    }
    if out.len() == 0 {
        out.push(Vec::new());
    }
    out
}

/// The text before the first `,` (all of `s` when there is none).
pub open spec fn first_field(s: Seq<char>) -> Seq<char>
    decreases s.len(),
{
    if s.len() == 0 {
        s
    } else if s[0] == ',' {
        Seq::empty()
    } else {
        seq![s[0]] + first_field(s.drop_first())
    }
}

/// Fence info string → language tag: the first comma-separated field,
/// trimmed and lower-cased; `None` when that is empty.
pub open spec fn lang_tag_spec(info: Seq<char>) -> Option<Seq<char>> {
    let t = lowercase_of(trim(first_field(info)));
    if t.len() == 0 {
        None
    } else {
        Some(t)
    }
}

/// Fence info string → language tag ("rust,ignore" → "rust"; blank → None).
pub fn lang_tag(info: &str) -> (r: Option<String>)
    ensures
        match r {
            Some(t) => lang_tag_spec(info@) == Some(t@),
            None => lang_tag_spec(info@) is None,
        },
        r is None <==> trim(first_field(info@)).len() == 0,
        all_ascii(trim(first_field(info@))) ==> match r {
            Some(t) => t@ == trim(first_field(info@)).map_values(|c: char| ascii_lower(c)),
            None => true,
        },
{
    let cs = chars_of(info);
    let mut k: usize = 0;
    assert(cs@.skip(0) =~= cs@);
    assert(cs@.take(0) + first_field(cs@) =~= first_field(cs@));
    while k < cs.len() && cs[k] != ','
        invariant
            k <= cs.len(),
            first_field(cs@) == cs@.take(k as int) + first_field(cs@.skip(k as int)),
        decreases cs.len() - k,
    {
        assert(cs@.skip(k as int).drop_first() =~= cs@.skip(k + 1));
        assert(cs@.take(k + 1) =~= cs@.take(k as int) + seq![cs@[k as int]]);
        k = k + 1;
    }
    proof {
        if k < cs.len() {
            assert(first_field(cs@.skip(k as int)) =~= Seq::<char>::empty());
        } else {
            assert(cs@.skip(k as int) =~= Seq::<char>::empty());
        }
        assert(first_field(cs@) =~= cs@.take(k as int));
    }
    let first = trim_chars(cs.as_slice().split_at(k).0);
    let lower = to_lowercase(string_of(&first).as_str());
    if lower.as_str().is_empty() {
        None
    } else {
        Some(lower)
    }
}

} // verus!
