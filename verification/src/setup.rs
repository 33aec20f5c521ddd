//! First-run AI setup wizard: Provider → Model → Credentials (API key) →
//! Test → Done, with a Custom branch (name → base URL → models).  Only a
//! passed connection test completes the setup.
use vstd::prelude::*;
use crate::keys::{Key, KeyCode};
use crate::text::{
    chars_eq, chars_of, chars_of_all, is_ws, string_of, trim, trim_chars, trim_end, trim_start, views,
    vviews,
};

verus! {

/// Setup step.
#[derive(Debug, Clone, Copy, PartialEq, Eq, Structural)]
pub enum SetupStep {
    Provider,
    Model,
    /// Custom provider input: name, base URL, models (plain text).
    CustomName,
    CustomBaseUrl,
    CustomModel,
    Credentials,
    Test,
    Done,
}

/// A provider of the registry: id, display name and model ids.
#[derive(Debug, Clone)]
pub struct ProviderPreset {
    pub id: String,
    pub display_name: String,
    pub models: Vec<String>,
}

/// Setup state (pending configuration, applied only after a passed test).
#[derive(Debug)]
pub struct SetupState {
    pub step: SetupStep,
    /// Cursor of the provider/model list.
    pub cursor: usize,
    /// Chosen provider (registry id or "custom").
    pub provider: Option<String>,
    /// Chosen models (several can be configured at once).
    pub selected_models: Vec<String>,
    /// Model under the cursor when the provider was chosen; then the first chosen.
    pub model: Option<String>,
    pub custom_name: String,
    pub custom_base_url: String,
    pub custom_model: String,
    /// Custom text input buffer.
    pub custom_buf: String,
    /// API key (masked on screen).
    pub api_key: String,
    /// Test running / last test result / passed.
    pub testing: bool,
    pub test_result: Option<String>,
    pub test_passed: bool,
    /// Key input buffer (never shown, never in the chat input).
    pub secret_buf: String,
}

pub open spec fn opt_view(o: Option<String>) -> Option<Seq<char>> {
    match o {
        Some(s) => Some(s@),
        None => None,
    }
}

pub struct SetupView {
    pub step: SetupStep,
    pub cursor: usize,
    pub provider: Option<Seq<char>>,
    pub selected_models: Seq<Seq<char>>,
    pub model: Option<Seq<char>>,
    pub custom_name: Seq<char>,
    pub custom_base_url: Seq<char>,
    pub custom_model: Seq<char>,
    pub custom_buf: Seq<char>,
    pub api_key: Seq<char>,
    pub testing: bool,
    pub test_result: Option<Seq<char>>,
    pub test_passed: bool,
    pub secret_buf: Seq<char>,
}

impl View for SetupState {
    type V = SetupView;

    open spec fn view(&self) -> SetupView {
        SetupView {
            step: self.step,
            cursor: self.cursor,
            provider: opt_view(self.provider),
            selected_models: views(self.selected_models@),
            model: opt_view(self.model),
            custom_name: self.custom_name@,
            custom_base_url: self.custom_base_url@,
            custom_model: self.custom_model@,
            custom_buf: self.custom_buf@,
            api_key: self.api_key@,
            testing: self.testing,
            test_result: opt_view(self.test_result),
            test_passed: self.test_passed,
            secret_buf: self.secret_buf@,
        }
    }
}

pub struct PresetView {
    pub id: Seq<char>,
    pub name: Seq<char>,
    pub models: Seq<Seq<char>>,
}

pub open spec fn presets_view(p: Seq<ProviderPreset>) -> Seq<PresetView> {
    p.map_values(|x: ProviderPreset| PresetView { id: x.id@, name: x.display_name@, models: views(x.models@) })
}

pub open spec fn initial_view() -> SetupView {
    SetupView {
        step: SetupStep::Provider,
        cursor: 0,
        provider: None,
        selected_models: Seq::empty(),
        model: None,
        custom_name: Seq::empty(),
        custom_base_url: Seq::empty(),
        custom_model: Seq::empty(),
        custom_buf: Seq::empty(),
        api_key: Seq::empty(),
        testing: false,
        test_result: None,
        test_passed: false,
        secret_buf: Seq::empty(),
    }
}

// ---------------------------------------------------------------------------
// Text helpers
// ---------------------------------------------------------------------------
/// Separators between custom model names: ASCII and full-width comma,
/// enumeration comma, ASCII and full-width semicolon, line breaks.
pub open spec fn is_model_sep(c: char) -> bool {
    c == ',' || c == '，' || c == '、' || c == ';' || c == '；' || c == '\n' || c == '\r'
}

/// The pieces between separators (`str::split` with the separator set):
/// always at least one, possibly empty.
pub open spec fn sep_pieces(s: Seq<char>) -> Seq<Seq<char>>
    decreases s.len(),
{
    if s.len() == 0 {
        seq![Seq::empty()]
    } else {
        let prev = sep_pieces(s.drop_last());
        if is_model_sep(s.last()) {
            prev.push(Seq::empty())
        } else {
            prev.update(prev.len() - 1, prev.last().push(s.last()))
        }
    }
}

proof fn lemma_sep_pieces_nonempty(s: Seq<char>)
    ensures
        sep_pieces(s).len() >= 1,
    decreases s.len(),
{
    if s.len() > 0 {
        lemma_sep_pieces_nonempty(s.drop_last());
    }
}

/// Trimmed pieces, empty ones dropped.
pub open spec fn trimmed_nonempty(p: Seq<Seq<char>>) -> Seq<Seq<char>>
    decreases p.len(),
{
    if p.len() == 0 {
        Seq::empty()
    } else {
        let prev = trimmed_nonempty(p.drop_last());
        let t = trim(p.last());
        if t.len() == 0 {
            prev
        } else {
            prev.push(t)
        }
    }
}

/// Custom model names: split at the separators, trimmed, empty ones dropped.
/// Spaces do not separate (names such as "DS V4 Flash").
pub open spec fn custom_models_spec(s: Seq<char>) -> Seq<Seq<char>> {
    trimmed_nonempty(sep_pieces(s))
}

/// Splits the custom model input (accepting Chinese separators too).
pub fn split_custom_models(input: &str) -> (r: Vec<String>)
    ensures
        views(r@) == custom_models_spec(input@),
{
    let cs = chars_of(input);
    let mut pieces: Vec<Vec<char>> = Vec::new();
    pieces.push(Vec::new());
    let mut i: usize = 0;
    assert(vviews(pieces@) =~= sep_pieces(cs@.take(0)));
    while i < cs.len()
        invariant
            i <= cs.len(),
            vviews(pieces@) == sep_pieces(cs@.take(i as int)),
            pieces.len() >= 1,
        decreases cs.len() - i,
    {
        let c = cs[i];
        let ghost pre = cs@.take(i as int);
        assert(cs@.take(i + 1).drop_last() =~= pre);
        if c == ',' || c == '，' || c == '、' || c == ';' || c == '；' || c == '\n' || c == '\r' {
            let ghost p0 = vviews(pieces@);
            pieces.push(Vec::new());
            assert(vviews(pieces@) =~= p0.push(Seq::empty()));
        } else {
            let last = pieces.len() - 1;
            let mut w = pieces.pop().unwrap();
            w.push(c);
            pieces.push(w);
            assert(vviews(pieces@) =~= sep_pieces(pre).update(
                last as int,
                sep_pieces(pre)[last as int].push(c),
            ));
        }
        i = i + 1;
    }
    assert(cs@.take(cs.len() as int) =~= cs@);
    let mut out: Vec<String> = Vec::new();
    let mut k: usize = 0;
    while k < pieces.len()
        invariant
            k <= pieces.len(),
            views(out@) == trimmed_nonempty(vviews(pieces@).take(k as int)),
        decreases pieces.len() - k,
    {
        let ghost pre = vviews(pieces@).take(k as int);
        assert(vviews(pieces@).take(k + 1).drop_last() =~= pre);
        let t = trim_chars(&pieces[k]);
        if t.len() > 0 {
            let ghost o0 = views(out@);
            out.push(string_of(&t));
            assert(views(out@) =~= o0.push(t@));
        }
        k = k + 1;
    }
    assert(vviews(pieces@).take(pieces.len() as int) =~= vviews(pieces@));
    out
}

/// Whether a (possibly multi-line, one line per model) connection test
/// report passed: no line carries a ✗ — that is, the report has no ✗.
pub fn setup_test_all_passed(text: &str) -> (r: bool)
    ensures
        r == !text@.contains('✗'),
{
    let cs = chars_of(text);
    let mut i: usize = 0;
    while i < cs.len()
        invariant
            i <= cs.len(),
            cs@ == text@,
            forall|j: int| 0 <= j < i ==> cs@[j] != '✗',
        decreases cs.len() - i,
    {
        if cs[i] == '✗' {
            assert(text@[i as int] == '✗');
            return false;
        }
        i = i + 1;
    }
    true
}

// ---------------------------------------------------------------------------
// State functions
// ---------------------------------------------------------------------------
/// The first preset with this id.
pub open spec fn find_preset(presets: Seq<PresetView>, id: Seq<char>) -> Option<PresetView>
    decreases presets.len(),
{
    if presets.len() == 0 {
        None
    } else if presets[0].id == id {
        Some(presets[0])
    } else {
        find_preset(presets.drop_first(), id)
    }
}

/// Model ids offered for a provider (none for custom or unknown ones).
pub open spec fn model_opts(provider: Option<Seq<char>>, presets: Seq<PresetView>) -> Seq<Seq<char>> {
    match provider {
        Some(id) => if id == "custom"@ {
            Seq::empty()
        } else {
            match find_preset(presets, id) {
                Some(p) => p.models,
                None => Seq::empty(),
            }
        },
        None => Seq::empty(),
    }
}

/// Provider list entries: (id, display name), the registry then Custom.
pub open spec fn provider_opts(presets: Seq<PresetView>) -> Seq<(Seq<char>, Seq<char>)> {
    presets.map_values(|p: PresetView| (p.id, p.name)) + seq![("custom"@, "Custom OpenAI-compatible"@)]
}

/// Entries of the current list step (Provider: the providers; Model: the
/// models, or one manual entry when there is none; other steps: none).
pub open spec fn options_spec(v: SetupView, presets: Seq<PresetView>) -> Seq<Seq<char>> {
    match v.step {
        SetupStep::Provider => provider_opts(presets).map_values(|o: (Seq<char>, Seq<char>)| o.1),
        SetupStep::Model => if model_opts(v.provider, presets).len() == 0 {
            seq!["Custom model (manual)"@]
        } else {
            model_opts(v.provider, presets)
        },
        _ => Seq::empty(),
    }
}

/// Next step (entering Test always asks for a new test).
pub open spec fn next_spec(v: SetupView) -> SetupView {
    match v.step {
        SetupStep::Provider => SetupView { step: SetupStep::Model, ..v },
        SetupStep::Model => SetupView { step: SetupStep::Credentials, ..v },
        SetupStep::CustomName => SetupView { step: SetupStep::CustomBaseUrl, ..v },
        SetupStep::CustomBaseUrl => SetupView { step: SetupStep::CustomModel, ..v },
        SetupStep::CustomModel => SetupView { step: SetupStep::Credentials, ..v },
        SetupStep::Credentials => SetupView { step: SetupStep::Test, test_passed: false, ..v },
        SetupStep::Test => SetupView { step: SetupStep::Done, ..v },
        SetupStep::Done => v,
    }
}

/// Previous step; `None` closes the wizard (Esc on the provider list).
/// Going back to Credentials or before it clears the key buffer; going back
/// to Credentials also asks for a new test.
pub open spec fn back_spec(v: SetupView) -> Option<SetupView> {
    match v.step {
        SetupStep::Provider => None,
        SetupStep::Model => Some(SetupView { step: SetupStep::Provider, ..v }),
        SetupStep::CustomName => Some(SetupView { step: SetupStep::Provider, ..v }),
        SetupStep::CustomBaseUrl => Some(SetupView { step: SetupStep::CustomName, ..v }),
        SetupStep::CustomModel => Some(SetupView { step: SetupStep::CustomBaseUrl, ..v }),
        SetupStep::Credentials => Some(
            SetupView {
                step: if v.provider == Some("custom"@) {
                    SetupStep::CustomModel
                } else {
                    SetupStep::Model
                },
                secret_buf: Seq::empty(),
                ..v
            },
        ),
        SetupStep::Test => Some(
            SetupView {
                step: SetupStep::Credentials,
                secret_buf: Seq::empty(),
                test_passed: false,
                ..v
            },
        ),
        SetupStep::Done => Some(SetupView { step: SetupStep::Test, ..v }),
    }
}

/// Enter on a list: choosing a provider (custom goes to the custom name,
/// others to their models with the first one pre-set); confirming the
/// models (the one under the cursor when none was chosen explicitly).
pub open spec fn select_spec(v: SetupView, presets: Seq<PresetView>) -> SetupView {
    match v.step {
        SetupStep::Provider => {
            let opts = provider_opts(presets);
            if v.cursor < opts.len() {
                let id = opts[v.cursor as int].0;
                if id == "custom"@ {
                    SetupView {
                        provider: Some(id),
                        selected_models: Seq::empty(),
                        custom_buf: Seq::empty(),
                        step: SetupStep::CustomName,
                        ..v
                    }
                } else {
                    let models = model_opts(Some(id), presets);
                    SetupView {
                        provider: Some(id),
                        selected_models: Seq::empty(),
                        model: if models.len() > 0 {
                            Some(models[0])
                        } else {
                            None
                        },
                        step: SetupStep::Model,
                        ..v
                    }
                }
            } else {
                v
            }
        },
        SetupStep::Model => {
            let models = model_opts(v.provider, presets);
            let sel = if models.len() > 0 && v.selected_models.len() == 0 {
                seq![models[v.cursor as int]]
            } else {
                v.selected_models
            };
            SetupView {
                selected_models: sel,
                model: if sel.len() > 0 {
                    Some(sel[0])
                } else {
                    None
                },
                step: SetupStep::Credentials,
                ..v
            }
        },
        _ => v,
    }
}

/// Space on the model list: the model under the cursor is added to the
/// chosen ones, or removed when it is there already.
pub open spec fn toggle_spec(v: SetupView, presets: Seq<PresetView>) -> SetupView {
    let models = model_opts(v.provider, presets);
    if v.step != SetupStep::Model || v.cursor >= models.len() {
        v
    } else {
        let m = models[v.cursor as int];
        if v.selected_models.contains(m) {
            SetupView { selected_models: remove_first(v.selected_models, m), ..v }
        } else {
            SetupView { selected_models: v.selected_models.push(m), ..v }
        }
    }
}

/// `s` without the first occurrence of `x`.
pub open spec fn remove_first(s: Seq<Seq<char>>, x: Seq<char>) -> Seq<Seq<char>>
    decreases s.len(),
{
    if s.len() == 0 {
        s
    } else if s[0] == x {
        s.drop_first()
    } else {
        seq![s[0]] + remove_first(s.drop_first(), x)
    }
}

/// What a key asks of the program besides the state change.
#[derive(Debug, Clone, Copy, PartialEq, Eq, Structural)]
pub enum SetupOutcome {
    /// Not for the wizard (falls through to the normal input).
    Ignored,
    /// Consumed by the wizard.
    Handled,
    /// Consumed, and the connection test of the pending configuration must run.
    RunTest,
}

/// Moving the list cursor down, within `n` entries.
pub open spec fn cursor_down(cursor: usize, n: nat) -> usize {
    if n > 0 {
        if cursor + 1 <= n - 1 {
            (cursor + 1) as usize
        } else {
            (n - 1) as usize
        }
    } else {
        cursor
    }
}

pub open spec fn cursor_up(cursor: usize) -> usize {
    if cursor > 0 {
        (cursor - 1) as usize
    } else {
        0
    }
}

/// Whether Enter on the model list is defined: when a model would be
/// taken from under the cursor, the cursor is on the list.
pub open spec fn select_defined(v: SetupView, presets: Seq<PresetView>) -> bool {
    let models = model_opts(v.provider, presets);
    v.step == SetupStep::Model && models.len() > 0 && v.selected_models.len() == 0 ==> v.cursor
        < models.len()
}

/// Starting a test: running, no result, not passed.
pub open spec fn test_started(v: SetupView) -> SetupView {
    SetupView { testing: true, test_result: None, test_passed: false, ..v }
}

/// The wizard after a key, and what the program must do.
pub open spec fn key_spec(v: SetupView, key: Key, presets: Seq<PresetView>) -> (
    Option<SetupView>,
    SetupOutcome,
) {
    if !key.press {
        (Some(v), SetupOutcome::Ignored)
    } else {
        match v.step {
            SetupStep::Provider | SetupStep::Model => match key.code {
                KeyCode::Up => (Some(SetupView { cursor: cursor_up(v.cursor), ..v }), SetupOutcome::Handled),
                KeyCode::Down => (
                    Some(SetupView { cursor: cursor_down(v.cursor, options_spec(v, presets).len()), ..v }),
                    SetupOutcome::Handled,
                ),
                KeyCode::Char(c) => if v.step == SetupStep::Model && c == ' ' {
                    (Some(toggle_spec(v, presets)), SetupOutcome::Handled)
                } else {
                    (Some(v), SetupOutcome::Ignored)
                },
                KeyCode::Enter => (Some(select_spec(v, presets)), SetupOutcome::Handled),
                KeyCode::Esc => (back_spec(v), SetupOutcome::Handled),
                _ => (Some(v), SetupOutcome::Ignored),
            },
            SetupStep::CustomName | SetupStep::CustomBaseUrl | SetupStep::CustomModel => match key.code {
                KeyCode::Esc => (back_spec(v), SetupOutcome::Handled),
                KeyCode::Backspace => (
                    Some(SetupView {
                        custom_buf: if v.custom_buf.len() > 0 {
                            v.custom_buf.drop_last()
                        } else {
                            v.custom_buf
                        },
                        ..v
                    }),
                    SetupOutcome::Handled,
                ),
                KeyCode::Delete => (Some(SetupView { custom_buf: Seq::empty(), ..v }), SetupOutcome::Handled),
                KeyCode::Enter => (
                    Some(
                        match v.step {
                            SetupStep::CustomName => SetupView {
                                custom_name: v.custom_buf,
                                custom_buf: Seq::empty(),
                                step: SetupStep::CustomBaseUrl,
                                ..v
                            },
                            SetupStep::CustomBaseUrl => SetupView {
                                custom_base_url: v.custom_buf,
                                custom_buf: Seq::empty(),
                                step: SetupStep::CustomModel,
                                ..v
                            },
                            _ => SetupView {
                                custom_model: v.custom_buf,
                                custom_buf: Seq::empty(),
                                step: SetupStep::Credentials,
                                ..v
                            },
                        },
                    ),
                    SetupOutcome::Handled,
                ),
                KeyCode::Char(c) => if !key.ctrl {
                    (Some(SetupView { custom_buf: v.custom_buf.push(c), ..v }), SetupOutcome::Handled)
                } else {
                    (Some(v), SetupOutcome::Ignored)
                },
                _ => (Some(v), SetupOutcome::Ignored),
            },
            SetupStep::Credentials => match key.code {
                KeyCode::Esc => (back_spec(v), SetupOutcome::Handled),
                KeyCode::Backspace => (
                    Some(SetupView {
                        secret_buf: if v.secret_buf.len() > 0 {
                            v.secret_buf.drop_last()
                        } else {
                            v.secret_buf
                        },
                        ..v
                    }),
                    SetupOutcome::Handled,
                ),
                KeyCode::Delete => (Some(SetupView { secret_buf: Seq::empty(), ..v }), SetupOutcome::Handled),
                KeyCode::Enter => (
                    Some(next_spec(SetupView { api_key: v.secret_buf, secret_buf: Seq::empty(), ..v })),
                    SetupOutcome::Handled,
                ),
                KeyCode::Char(c) => if !key.ctrl {
                    (Some(SetupView { secret_buf: v.secret_buf.push(c), ..v }), SetupOutcome::Handled)
                } else {
                    (Some(v), SetupOutcome::Ignored)
                },
                _ => (Some(v), SetupOutcome::Ignored),
            },
            SetupStep::Test => match key.code {
                KeyCode::Enter => if v.test_passed {
                    (Some(next_spec(v)), SetupOutcome::Handled)
                } else {
                    (Some(test_started(v)), SetupOutcome::RunTest)
                },
                KeyCode::Esc => (back_spec(v), SetupOutcome::Handled),
                _ => (Some(v), SetupOutcome::Ignored),
            },
            SetupStep::Done => match key.code {
                KeyCode::Enter => (None, SetupOutcome::Handled),
                KeyCode::Esc => (back_spec(v), SetupOutcome::Handled),
                _ => (Some(v), SetupOutcome::Ignored),
            },
        }
    }
}

/// A test report: not running any more, the report kept; a report without
/// ✗ passes and completes the setup.
pub open spec fn test_done_spec(v: SetupView, text: Seq<char>) -> SetupView {
    let w = SetupView { testing: false, test_result: Some(text), ..v };
    if text.contains('✗') {
        w
    } else {
        SetupView { test_passed: true, step: SetupStep::Done, ..w }
    }
}

// ---------------------------------------------------------------------------
// Executable
// ---------------------------------------------------------------------------
fn pop_char(s: &mut String)
    ensures
        final(s)@ == if old(s)@.len() > 0 {
            old(s)@.drop_last()
        } else {
            old(s)@
        },
{
    let mut cs = chars_of(s.as_str());
    if cs.len() > 0 {
        cs.pop();
    }
    *s = string_of(&cs);
}

impl SetupState {
    /// A fresh wizard on the provider list.
    pub fn new() -> (r: SetupState)
        ensures
            r@ == initial_view(),
    {
        let r = SetupState {
            step: SetupStep::Provider,
            cursor: 0,
            provider: None,
            model: None,
            selected_models: Vec::new(),
            custom_name: String::new(),
            custom_base_url: String::new(),
            custom_model: String::new(),
            custom_buf: String::new(),
            api_key: String::new(),
            testing: false,
            test_result: None,
            test_passed: false,
            secret_buf: String::new(),
        };
        assert(views(r.selected_models@) =~= Seq::<Seq<char>>::empty());
        r
    }

    /// Name shown for the custom provider: the typed name, trimmed, or
    /// "custom" when none was typed.
    pub fn custom_display_name(&self) -> (r: String)
        ensures
            r@ == if trim(self.custom_name@).len() == 0 {
                "custom"@
            } else {
                trim(self.custom_name@)
            },
    {
        let t = trim_chars(&chars_of(self.custom_name.as_str()));
        if t.len() == 0 {
            "custom".to_owned()
        } else {
            string_of(&t)
        }
    }

    /// Models of the custom provider (split, trimmed; maybe none).
    pub fn custom_model_list(&self) -> (r: Vec<String>)
        ensures
            views(r@) == custom_models_spec(self.custom_model@),
    {
        split_custom_models(self.custom_model.as_str())
    }

    /// Provider list: (id, display name) of the registry, then Custom.
    pub fn provider_options(&self, presets: &[ProviderPreset]) -> (r: Vec<(String, String)>)
        ensures
            r@.map_values(|o: (String, String)| (o.0@, o.1@)) == provider_opts(presets_view(presets@)),
    {
        let mut v: Vec<(String, String)> = Vec::new();
        let mut i: usize = 0;
        while i < presets.len()
            invariant
                i <= presets.len(),
                v@.map_values(|o: (String, String)| (o.0@, o.1@)) == presets_view(presets@).take(
                    i as int,
                ).map_values(|p: PresetView| (p.id, p.name)),
            decreases presets.len() - i,
        {
            let ghost v0 = v@.map_values(|o: (String, String)| (o.0@, o.1@));
            v.push((presets[i].id.clone(), presets[i].display_name.clone()));
            assert(v@.map_values(|o: (String, String)| (o.0@, o.1@)) =~= v0.push(
                (presets@[i as int].id@, presets@[i as int].display_name@),
            ));
            i = i + 1;
            assert(presets_view(presets@).take(i as int).map_values(|p: PresetView| (p.id, p.name))
                =~= presets_view(presets@).take(i - 1).map_values(|p: PresetView| (p.id, p.name)).push(
                (presets@[i - 1].id@, presets@[i - 1].display_name@),
            ));
        }
        assert(presets_view(presets@).take(presets.len() as int) =~= presets_view(presets@));
        let ghost v0 = v@.map_values(|o: (String, String)| (o.0@, o.1@));
        v.push(("custom".to_owned(), "Custom OpenAI-compatible".to_owned()));
        assert(v@.map_values(|o: (String, String)| (o.0@, o.1@)) =~= v0.push(
            ("custom"@, "Custom OpenAI-compatible"@),
        ));
        v
    }

    /// Model ids of the chosen provider.
    pub fn model_options(&self, presets: &[ProviderPreset]) -> (r: Vec<String>)
        ensures
            views(r@) == model_opts(opt_view(self.provider), presets_view(presets@)),
    {
        match &self.provider {
            None => Vec::new(),
            Some(id) => {
                if crate::text::str_eq(id.as_str(), "custom") {
                    return Vec::new();
                }
                let mut i: usize = 0;
                assert(presets_view(presets@).skip(0) =~= presets_view(presets@));
                while i < presets.len()
                    invariant
                        i <= presets.len(),
                        opt_view(self.provider) == Some(id@),
                        id@ != "custom"@,
                        find_preset(presets_view(presets@), id@) == find_preset(
                            presets_view(presets@).skip(i as int),
                            id@,
                        ),
                    decreases presets.len() - i,
                {
                    assert(presets_view(presets@).skip(i as int)[0] == presets_view(presets@)[i as int]);
                    if crate::text::str_eq(presets[i].id.as_str(), id.as_str()) {
                        let mut out: Vec<String> = Vec::new();
                        let mut k: usize = 0;
                        assert(find_preset(presets_view(presets@).skip(i as int), id@) == Some(
                            presets_view(presets@)[i as int],
                        ));
                        while k < presets[i].models.len()
                            invariant
                                i < presets.len(),
                                opt_view(self.provider) == Some(id@),
                                id@ != "custom"@,
                                find_preset(presets_view(presets@), id@) == Some(presets_view(presets@)[i as int]),
                                k <= presets@[i as int].models@.len(),
                                views(out@) == views(presets@[i as int].models@).take(k as int),
                            decreases presets@[i as int].models@.len() - k,
                        {
                            let ghost o0 = views(out@);
                            out.push(presets[i].models[k].clone());
                            assert(views(out@) =~= o0.push(presets@[i as int].models@[k as int]@));
                            k = k + 1;
                            assert(views(out@) =~= views(presets@[i as int].models@).take(k as int));
                        }
                        assert(views(presets@[i as int].models@).take(k as int) =~= views(presets@[i as int].models@));
                        assert(presets_view(presets@)[i as int].models == views(presets@[i as int].models@));
                        return out;
                    }
                    assert(presets_view(presets@).skip(i as int).drop_first() =~= presets_view(presets@).skip(i + 1));
                    i = i + 1;
                }
                assert(presets_view(presets@).skip(i as int) =~= Seq::<PresetView>::empty());
                Vec::new()
            },
        }
    }

    /// Entries of the current list step.
    pub fn options(&self, presets: &[ProviderPreset]) -> (r: Vec<String>)
        ensures
            views(r@) == options_spec(self@, presets_view(presets@)),
    {
        match self.step {
            SetupStep::Provider => {
                let opts = self.provider_options(presets);
                let mut out: Vec<String> = Vec::new();
                let mut i: usize = 0;
                while i < opts.len()
                    invariant
                        i <= opts.len(),
                        views(out@) == opts@.take(i as int).map_values(|o: (String, String)| o.1@),
                    decreases opts.len() - i,
                {
                    let ghost o0 = views(out@);
                    out.push(opts[i].1.clone());
                    assert(views(out@) =~= o0.push(opts@[i as int].1@));
                    i = i + 1;
                    assert(opts@.take(i as int).map_values(|o: (String, String)| o.1@) =~= opts@.take(
                        i - 1,
                    ).map_values(|o: (String, String)| o.1@).push(opts@[i - 1].1@));
                }
                assert(opts@.take(opts.len() as int) =~= opts@);
                assert(provider_opts(presets_view(presets@)).map_values(
                    |o: (Seq<char>, Seq<char>)| o.1,
                ) =~= opts@.map_values(|o: (String, String)| (o.0@, o.1@)).map_values(
                    |o: (Seq<char>, Seq<char>)| o.1,
                ));
                assert(opts@.map_values(|o: (String, String)| (o.0@, o.1@)).map_values(
                    |o: (Seq<char>, Seq<char>)| o.1,
                ) =~= opts@.map_values(|o: (String, String)| o.1@));
                out
            },
            SetupStep::Model => {
                let models = self.model_options(presets);
                if models.len() == 0 {
                    let mut v: Vec<String> = Vec::new();
                    v.push("Custom model (manual)".to_owned());
                    assert(views(v@) =~= seq!["Custom model (manual)"@]);
                    v
                } else {
                    models
                }
            },
            _ => {
                let v: Vec<String> = Vec::new();
                assert(views(v@) =~= Seq::<Seq<char>>::empty());
                v
            },
        }
    }

    /// Records a connection test report; returns whether it passed (then
    /// the program saves the configuration).
    pub fn record_test_result(&mut self, text: String) -> (passed: bool)
        ensures
            final(self)@ == test_done_spec(old(self)@, text@),
            passed == !text@.contains('✗'),
    {
        let passed = setup_test_all_passed(text.as_str());
        self.testing = false;
        self.test_result = Some(text);
        if passed {
            self.test_passed = true;
            self.step = SetupStep::Done;
        }
        passed
    }
}

/// Next step.
pub fn setup_next(s: &mut SetupState)
    ensures
        final(s)@ == next_spec(old(s)@),
{
    s.step = match s.step {
        SetupStep::Provider => SetupStep::Model,
        SetupStep::Model => SetupStep::Credentials,
        SetupStep::CustomName => SetupStep::CustomBaseUrl,
        SetupStep::CustomBaseUrl => SetupStep::CustomModel,
        SetupStep::CustomModel => SetupStep::Credentials,
        SetupStep::Credentials => {
            s.test_passed = false;
            SetupStep::Test
        },
        SetupStep::Test => SetupStep::Done,
        SetupStep::Done => SetupStep::Done,
    };
}

/// Previous step; on the provider list the wizard closes.
pub fn setup_back(setup: &mut Option<SetupState>)
    ensures
        match *old(setup) {
            Some(s) => match *final(setup) {
                Some(t) => back_spec(s@) == Some(t@),
                None => back_spec(s@) is None,
            },
            None => *final(setup) is None,
        },
{
    let mut s = match setup.take() {
        Some(s) => s,
        None => return,
    };
    match s.step {
        SetupStep::Provider => {
            return;
        },
        SetupStep::Model => s.step = SetupStep::Provider,
        SetupStep::CustomName => s.step = SetupStep::Provider,
        SetupStep::CustomBaseUrl => s.step = SetupStep::CustomName,
        SetupStep::CustomModel => s.step = SetupStep::CustomBaseUrl,
        SetupStep::Credentials => {
            s.secret_buf = String::new();
            let custom = match &s.provider {
                Some(p) => crate::text::str_eq(p.as_str(), "custom"),
                None => false,
            };
            s.step = if custom {
                SetupStep::CustomModel
            } else {
                SetupStep::Model
            };
        },
        SetupStep::Test => {
            s.secret_buf = String::new();
            s.test_passed = false;
            s.step = SetupStep::Credentials;
        },
        SetupStep::Done => s.step = SetupStep::Test,
    }
    *setup = Some(s);
}

/// Enter on the provider or model list.
pub fn setup_select(s: &mut SetupState, presets: &[ProviderPreset])
    requires
        select_defined(old(s)@, presets_view(presets@)),
    ensures
        final(s)@ == select_spec(old(s)@, presets_view(presets@)),
{
    match s.step {
        SetupStep::Provider => {
            let opts = s.provider_options(presets);
            if s.cursor < opts.len() {
                let id = opts[s.cursor].0.clone();
                assert(id@ == provider_opts(presets_view(presets@))[s.cursor as int].0);
                s.provider = Some(id.clone());
                s.selected_models = Vec::new();
                if crate::text::str_eq(id.as_str(), "custom") {
                    s.custom_buf = String::new();
                    s.step = SetupStep::CustomName;
                } else {
                    let models = s.model_options(presets);
                    s.model = if models.len() > 0 {
                        Some(models[0].clone())
                    } else {
                        None
                    };
                    s.step = SetupStep::Model;
                }
                assert(views(s.selected_models@) =~= Seq::<Seq<char>>::empty());
            }
        },
        SetupStep::Model => {
            let models = s.model_options(presets);
            if models.len() > 0 && s.selected_models.len() == 0 {
                s.selected_models.push(models[s.cursor].clone());
                assert(views(s.selected_models@) =~= seq![views(models@)[s.cursor as int]]);
            }
            s.model = if s.selected_models.len() > 0 {
                Some(s.selected_models[0].clone())
            } else {
                None
            };
            s.step = SetupStep::Credentials;
        },
        _ => {},
    }
}

/// Space on the model list: choose or un-choose the model under the cursor.
pub fn setup_toggle_model(s: &mut SetupState, presets: &[ProviderPreset])
    ensures
        final(s)@ == toggle_spec(old(s)@, presets_view(presets@)),
{
    if s.step != SetupStep::Model {
        return;
    }
    let models = s.model_options(presets);
    if s.cursor >= models.len() {
        return;
    }
    let m = models[s.cursor].clone();
    let ghost sel = views(s.selected_models@);
    let found = position_of(&s.selected_models, &m);
    match found {
        Some(k) => {
            proof {
                lemma_remove_first_at(sel, m@, k as int);
            }
            s.selected_models.remove(k);
            assert(views(s.selected_models@) =~= sel.take(k as int) + sel.skip(k + 1));
        },
        None => {
            s.selected_models.push(m);
            assert(views(s.selected_models@) =~= sel.push(views(models@)[old(s).cursor as int]));
        },
    }
}

/// Index of the first element of `v` equal to `m`.
fn position_of(v: &Vec<String>, m: &String) -> (r: Option<usize>)
    ensures
        match r {
            Some(k) => k < v@.len() && views(v@)[k as int] == m@ && forall|j: int|
                0 <= j < k ==> views(v@)[j] != m@,
            None => !views(v@).contains(m@),
        },
{
    let mut i: usize = 0;
    while i < v.len()
        invariant
            i <= v.len(),
            forall|j: int| 0 <= j < i ==> views(v@)[j] != m@,
        decreases v.len() - i,
    {
        if crate::text::str_eq(v[i].as_str(), m.as_str()) {
            return Some(i);
        }
        i = i + 1;
    }
    None
}

proof fn lemma_remove_first_at(s: Seq<Seq<char>>, x: Seq<char>, k: int)
    requires
        0 <= k < s.len(),
        s[k] == x,
        forall|j: int| 0 <= j < k ==> s[j] != x,
    ensures
        remove_first(s, x) == s.take(k) + s.skip(k + 1),
        s.contains(x),
    decreases k,
{
    if k == 0 {
        assert(s.take(0) + s.skip(1) =~= s.drop_first());
    } else {
        lemma_remove_first_at(s.drop_first(), x, k - 1);
        assert(seq![s[0]] + (s.drop_first().take(k - 1) + s.drop_first().skip(k)) =~= s.take(k)
            + s.skip(k + 1));
    }
}

/// Routes a key to the wizard.  `setup` is `None` after the wizard closes.
pub fn handle_setup_key(setup: &mut Option<SetupState>, key: Key, presets: &[ProviderPreset]) -> (r: SetupOutcome)
    requires
        match *old(setup) {
            Some(s) => key.press && key.code == KeyCode::Enter ==> select_defined(s@, presets_view(presets@)),
            None => true,
        },
    ensures
        match *old(setup) {
            Some(s) => {
                let (v, o) = key_spec(s@, key, presets_view(presets@));
                &&& r == o
                &&& match *final(setup) {
                    Some(t) => v == Some(t@),
                    None => v is None,
                }
            },
            None => r == SetupOutcome::Ignored && *final(setup) is None,
        },
{
    let mut s = match setup.take() {
        Some(s) => s,
        None => return SetupOutcome::Ignored,
    };
    if !key.press {
        *setup = Some(s);
        return SetupOutcome::Ignored;
    }
    let out = match s.step {
        SetupStep::Provider | SetupStep::Model => match key.code {
            KeyCode::Up => {
                s.cursor = if s.cursor > 0 {
                    s.cursor - 1
                } else {
                    0
                };
                SetupOutcome::Handled
            },
            KeyCode::Down => {
                let n = s.options(presets).len();
                if n > 0 {
                    s.cursor = if s.cursor < n - 1 {
                        s.cursor + 1
                    } else {
                        n - 1
                    };
                }
                SetupOutcome::Handled
            },
            KeyCode::Char(c) => {
                if s.step == SetupStep::Model && c == ' ' {
                    setup_toggle_model(&mut s, presets);
                    SetupOutcome::Handled
                } else {
                    SetupOutcome::Ignored
                }
            },
            KeyCode::Enter => {
                setup_select(&mut s, presets);
                SetupOutcome::Handled
            },
            KeyCode::Esc => {
                let mut o = Some(s);
                setup_back(&mut o);
                *setup = o;
                return SetupOutcome::Handled;
            },
            _ => SetupOutcome::Ignored,
        },
        SetupStep::CustomName | SetupStep::CustomBaseUrl | SetupStep::CustomModel => match key.code {
            KeyCode::Esc => {
                let mut o = Some(s);
                setup_back(&mut o);
                *setup = o;
                return SetupOutcome::Handled;
            },
            KeyCode::Backspace => {
                pop_char(&mut s.custom_buf);
                SetupOutcome::Handled
            },
            KeyCode::Delete => {
                s.custom_buf = String::new();
                SetupOutcome::Handled
            },
            KeyCode::Enter => {
                let value = s.custom_buf.clone();
                s.custom_buf = String::new();
                match s.step {
                    SetupStep::CustomName => {
                        s.custom_name = value;
                        s.step = SetupStep::CustomBaseUrl;
                    },
                    SetupStep::CustomBaseUrl => {
                        s.custom_base_url = value;
                        s.step = SetupStep::CustomModel;
                    },
                    _ => {
                        s.custom_model = value;
                        s.step = SetupStep::Credentials;
                    },
                }
                SetupOutcome::Handled
            },
            KeyCode::Char(c) => {
                if !key.ctrl {
                    s.custom_buf.push(c);
                    SetupOutcome::Handled
                } else {
                    SetupOutcome::Ignored
                }
            },
            _ => SetupOutcome::Ignored,
        },
        SetupStep::Credentials => match key.code {
            KeyCode::Esc => {
                let mut o = Some(s);
                setup_back(&mut o);
                *setup = o;
                return SetupOutcome::Handled;
            },
            KeyCode::Backspace => {
                pop_char(&mut s.secret_buf);
                SetupOutcome::Handled
            },
            KeyCode::Delete => {
                s.secret_buf = String::new();
                SetupOutcome::Handled
            },
            KeyCode::Enter => {
                s.api_key = s.secret_buf.clone();
                s.secret_buf = String::new();
                setup_next(&mut s);
                SetupOutcome::Handled
            },
            KeyCode::Char(c) => {
                if !key.ctrl {
                    s.secret_buf.push(c);
                    SetupOutcome::Handled
                } else {
                    SetupOutcome::Ignored
                }
            },
            _ => SetupOutcome::Ignored,
        },
        SetupStep::Test => match key.code {
            KeyCode::Enter => {
                if s.test_passed {
                    setup_next(&mut s);
                    SetupOutcome::Handled
                } else {
                    s.testing = true;
                    s.test_result = None;
                    s.test_passed = false;
                    SetupOutcome::RunTest
                }
            },
            KeyCode::Esc => {
                let mut o = Some(s);
                setup_back(&mut o);
                *setup = o;
                return SetupOutcome::Handled;
            },
            _ => SetupOutcome::Ignored,
        },
        SetupStep::Done => match key.code {
            KeyCode::Enter => {
                return SetupOutcome::Handled;
            },
            KeyCode::Esc => {
                let mut o = Some(s);
                setup_back(&mut o);
                *setup = o;
                return SetupOutcome::Handled;
            },
            _ => SetupOutcome::Ignored,
        },
    };
    *setup = Some(s);
    out
}

/// The wizard reaches Done only through a passed test: if Done implies a
/// passed test before a key (or a test report), it does after it.
pub proof fn law_done_only_after_passed_test(v: SetupView, key: Key, presets: Seq<PresetView>, text: Seq<char>)
    requires
        v.step == SetupStep::Done ==> v.test_passed,
    ensures
        key_spec(v, key, presets).0 matches Some(w) ==> (w.step == SetupStep::Done ==> w.test_passed),
        test_done_spec(v, text).step == SetupStep::Done ==> test_done_spec(v, text).test_passed,
{
}

/// Esc undoes a step forward on the linear part of the wizard: back after
/// next returns to the same step (for the model list, of a registry provider).
pub proof fn law_back_undoes_next(v: SetupView)
    requires
        v.step == SetupStep::CustomName || v.step == SetupStep::CustomBaseUrl || v.step
            == SetupStep::Credentials || v.step == SetupStep::Test || (v.step == SetupStep::Model
            && v.provider != Some("custom"@)),
    ensures
        back_spec(next_spec(v)) matches Some(w) && w.step == v.step,
{
}

/// A model name as the wizard stores it: not empty, no white space at either
/// end, and no separator inside.
pub open spec fn clean_model_name(n: Seq<char>) -> bool {
    &&& n.len() > 0
    &&& !is_ws(n[0])
    &&& !is_ws(n.last())
    &&& forall|j: int| 0 <= j < n.len() ==> !is_model_sep(#[trigger] n[j])
}

proof fn lemma_sep_pieces_clean(s: Seq<char>)
    ensures
        forall|i: int, j: int|
            0 <= i < sep_pieces(s).len() && 0 <= j < sep_pieces(s)[i].len() ==> !is_model_sep(
                #[trigger] sep_pieces(s)[i][j],
            ),
    decreases s.len(),
{
    if s.len() > 0 {
        lemma_sep_pieces_clean(s.drop_last());
        lemma_sep_pieces_nonempty(s.drop_last());
    }
}

proof fn lemma_trim_start_suffix(s: Seq<char>)
    ensures
        trim_start(s).len() <= s.len(),
        trim_start(s) == s.skip(s.len() - trim_start(s).len()),
        trim_start(s).len() > 0 ==> !is_ws(trim_start(s)[0]),
    decreases s.len(),
{
    if s.len() > 0 && is_ws(s[0]) {
        lemma_trim_start_suffix(s.drop_first());
        assert(s.drop_first().skip(s.drop_first().len() - trim_start(s).len()) =~= s.skip(
            s.len() - trim_start(s).len(),
        ));
    } else {
        assert(s.skip(0) =~= s);
    }
}

proof fn lemma_trim_end_prefix(s: Seq<char>)
    ensures
        trim_end(s).len() <= s.len(),
        trim_end(s) == s.take(trim_end(s).len() as int),
        trim_end(s).len() > 0 ==> !is_ws(trim_end(s).last()),
    decreases s.len(),
{
    if s.len() > 0 && is_ws(s.last()) {
        lemma_trim_end_prefix(s.drop_last());
        assert(s.drop_last().take(trim_end(s).len() as int) =~= s.take(trim_end(s).len() as int));
    } else {
        assert(s.take(s.len() as int) =~= s);
    }
}

proof fn lemma_trim_clean(p: Seq<char>)
    requires
        forall|j: int| 0 <= j < p.len() ==> !is_model_sep(#[trigger] p[j]),
        trim(p).len() > 0,
    ensures
        clean_model_name(trim(p)),
{
    let a = trim_start(p);
    lemma_trim_start_suffix(p);
    lemma_trim_end_prefix(a);
    let t = trim(p);
    assert(t.len() > 0);
    assert(a.len() > 0);
    assert(t[0] == a[0]);
    assert forall|j: int| 0 <= j < t.len() implies !is_model_sep(#[trigger] t[j]) by {
        assert(t[j] == a[j]);
        assert(a[j] == p[p.len() - a.len() + j]);
    }
}

proof fn lemma_trimmed_clean(ps: Seq<Seq<char>>)
    requires
        forall|i: int, j: int|
            0 <= i < ps.len() && 0 <= j < ps[i].len() ==> !is_model_sep(#[trigger] ps[i][j]),
    ensures
        forall|k: int| 0 <= k < trimmed_nonempty(ps).len() ==> clean_model_name(#[trigger] trimmed_nonempty(ps)[k]),
    decreases ps.len(),
{
    if ps.len() > 0 {
        let last = ps.last();
        assert forall|i: int, j: int|
            0 <= i < ps.drop_last().len() && 0 <= j < ps.drop_last()[i].len() implies !is_model_sep(
                #[trigger] ps.drop_last()[i][j],
            ) by {
            assert(ps.drop_last()[i] == ps[i]);
        }
        lemma_trimmed_clean(ps.drop_last());
        if trim(last).len() > 0 {
            assert forall|j: int| 0 <= j < last.len() implies !is_model_sep(#[trigger] last[j]) by {
                assert(ps[ps.len() - 1][j] == last[j]);
            }
            lemma_trim_clean(last);
        }
        let prev = trimmed_nonempty(ps.drop_last());
        assert forall|k: int| 0 <= k < trimmed_nonempty(ps).len() implies clean_model_name(
            #[trigger] trimmed_nonempty(ps)[k],
        ) by {
            if k < prev.len() {
                assert(trimmed_nonempty(ps)[k] == prev[k]);
            }
        }
    }
}

/// Every custom model name the wizard keeps is clean: not empty, trimmed,
/// and free of separators (no model id holds a comma).
pub proof fn law_custom_models_are_clean(input: Seq<char>)
    ensures
        forall|k: int|
            0 <= k < custom_models_spec(input).len() ==> clean_model_name(
                #[trigger] custom_models_spec(input)[k],
            ),
{
    lemma_sep_pieces_clean(input);
    lemma_trimmed_clean(sep_pieces(input));
}

} // verus!
