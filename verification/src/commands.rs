//! Slash commands: which command a line names, its normalised argument, and
//! the decisions that need no storage (the session-switch gate, `/rename`
//! by workspace, `/open` and `/budget` arguments, the `/outline` request).
use vstd::prelude::*;
use crate::course_cmd::{parse_review_action, review_action_spec, strip_placeholder_tokens};
use crate::course_cmd::strip_placeholders_spec;
use crate::import_path::{ascii_lower, ascii_lower_exec, ascii_lowercase};
use crate::navigation::{course_id_spec, current_course_id, Workspace};
use crate::text::{
    append_chars, chars_eq, chars_of, contains_chars, contains_sub, join, join_chars, occurs_at, parse_i64,
    parse_i64_spec, split_ws, str_eq, string_of, trim, trim_chars, trim_str, views, vviews, ws_tokens,
};

verus! {

/// What `/rename` does in each workspace.
#[derive(Debug, Clone)]
pub enum RenameRoute {
    /// No name given in a course: ask for the new course name.
    CourseWizard,
    /// No name given in a session: ask for the new session title.
    SessionWizard,
    Course(String),
    Session(String),
    /// On Home there is nothing to rename.
    NeedsScope,
}

/// Where a command line goes.
#[derive(Debug, Clone)]
pub enum CommandRoute {
    /// A session-switching command while a request runs: refused, so that
    /// the reply of the running request is not written into another session.
    Busy,
    Help,
    Course(String),
    Model(String),
    Test,
    New,
    Sessions,
    Open(String),
    Export,
    Rename(RenameRoute),
    Load(String),
    /// `/load` without a path.
    LoadUsage,
    Import(String),
    Delete(String),
    Move(String),
    Budget(String),
    Notes,
    Outline(String),
    /// `/search`: not available yet.
    Search,
    RefreshConcepts,
    ReviewMap(String),
    Review(String),
    /// An unknown command word (lower-cased).
    Unknown(String),
}

pub enum RenameView {
    CourseWizard,
    SessionWizard,
    Course(Seq<char>),
    Session(Seq<char>),
    NeedsScope,
}

pub enum RouteView {
    Busy,
    Help,
    Course(Seq<char>),
    Model(Seq<char>),
    Test,
    New,
    Sessions,
    Open(Seq<char>),
    Export,
    Rename(RenameView),
    Load(Seq<char>),
    LoadUsage,
    Import(Seq<char>),
    Delete(Seq<char>),
    Move(Seq<char>),
    Budget(Seq<char>),
    Notes,
    Outline(Seq<char>),
    Search,
    RefreshConcepts,
    ReviewMap(Seq<char>),
    Review(Seq<char>),
    Unknown(Seq<char>),
}

impl View for RenameRoute {
    type V = RenameView;

    open spec fn view(&self) -> RenameView {
        match self {
            RenameRoute::CourseWizard => RenameView::CourseWizard,
            RenameRoute::SessionWizard => RenameView::SessionWizard,
            RenameRoute::Course(s) => RenameView::Course(s@),
            RenameRoute::Session(s) => RenameView::Session(s@),
            RenameRoute::NeedsScope => RenameView::NeedsScope,
        }
    }
}

impl View for CommandRoute {
    type V = RouteView;

    open spec fn view(&self) -> RouteView {
        match self {
            CommandRoute::Busy => RouteView::Busy,
            CommandRoute::Help => RouteView::Help,
            CommandRoute::Course(s) => RouteView::Course(s@),
            CommandRoute::Model(s) => RouteView::Model(s@),
            CommandRoute::Test => RouteView::Test,
            CommandRoute::New => RouteView::New,
            CommandRoute::Sessions => RouteView::Sessions,
            CommandRoute::Open(s) => RouteView::Open(s@),
            CommandRoute::Export => RouteView::Export,
            CommandRoute::Rename(r) => RouteView::Rename(r@),
            CommandRoute::Load(s) => RouteView::Load(s@),
            CommandRoute::LoadUsage => RouteView::LoadUsage,
            CommandRoute::Import(s) => RouteView::Import(s@),
            CommandRoute::Delete(s) => RouteView::Delete(s@),
            CommandRoute::Move(s) => RouteView::Move(s@),
            CommandRoute::Budget(s) => RouteView::Budget(s@),
            CommandRoute::Notes => RouteView::Notes,
            CommandRoute::Outline(s) => RouteView::Outline(s@),
            CommandRoute::Search => RouteView::Search,
            CommandRoute::RefreshConcepts => RouteView::RefreshConcepts,
            CommandRoute::ReviewMap(s) => RouteView::ReviewMap(s@),
            CommandRoute::Review(s) => RouteView::Review(s@),
            CommandRoute::Unknown(s) => RouteView::Unknown(s@),
        }
    }
}

/// The command word: the first white-space token, ASCII lower-cased.
pub open spec fn command_word(text: Seq<char>) -> Seq<char> {
    let toks = ws_tokens(text);
    if toks.len() == 0 {
        Seq::empty()
    } else {
        ascii_lowercase(toks[0])
    }
}

/// The tokens after the command word.
pub open spec fn arg_tokens(toks: Seq<Seq<char>>) -> Seq<Seq<char>> {
    if toks.len() == 0 {
        Seq::empty()
    } else {
        toks.skip(1)
    }
}

/// The argument: the other tokens joined by one space, placeholders dropped.
pub open spec fn command_arg(text: Seq<char>) -> Seq<char> {
    strip_placeholders_spec(join(arg_tokens(ws_tokens(text)), " "@))
}

/// Commands that replace the current session.
pub open spec fn switches_session(cmd: Seq<char>) -> bool {
    cmd == "/open"@ || cmd == "/load"@ || cmd == "/new"@ || cmd == "/rename"@
}

pub open spec fn rename_spec(ws: Workspace, arg: Seq<char>) -> RenameView {
    let name = trim(arg);
    match ws {
        Workspace::Course => if name.len() == 0 {
            RenameView::CourseWizard
        } else {
            RenameView::Course(name)
        },
        Workspace::Session => if name.len() == 0 {
            RenameView::SessionWizard
        } else {
            RenameView::Session(name)
        },
        Workspace::Home => RenameView::NeedsScope,
    }
}

/// Where the command line `text` goes, given whether a request is running
/// and the current workspace.
pub open spec fn route_spec(text: Seq<char>, inflight: bool, ws: Workspace) -> RouteView {
    let cmd = command_word(text);
    let arg = command_arg(text);
    if switches_session(cmd) && inflight {
        RouteView::Busy
    } else if cmd == "/help"@ {
        RouteView::Help
    } else if cmd == "/course"@ {
        RouteView::Course(arg)
    } else if cmd == "/model"@ {
        RouteView::Model(trim(arg))
    } else if cmd == "/test"@ {
        RouteView::Test
    } else if cmd == "/new"@ {
        RouteView::New
    } else if cmd == "/sessions"@ {
        RouteView::Sessions
    } else if cmd == "/open"@ {
        RouteView::Open(arg)
    } else if cmd == "/export"@ {
        RouteView::Export
    } else if cmd == "/rename"@ {
        RouteView::Rename(rename_spec(ws, arg))
    } else if cmd == "/load"@ {
        if trim(arg).len() == 0 {
            RouteView::LoadUsage
        } else {
            RouteView::Load(trim(arg))
        }
    } else if cmd == "/import"@ {
        RouteView::Import(trim(arg))
    } else if cmd == "/delete"@ {
        RouteView::Delete(trim(arg))
    } else if cmd == "/move"@ {
        RouteView::Move(trim(arg))
    } else if cmd == "/budget"@ {
        RouteView::Budget(trim(arg))
    } else if cmd == "/notes"@ {
        RouteView::Notes
    } else if cmd == "/outline"@ {
        RouteView::Outline(trim(arg))
    } else if cmd == "/search"@ {
        RouteView::Search
    } else if cmd == "/refresh-concepts"@ {
        RouteView::RefreshConcepts
    } else if cmd == "/review-map"@ {
        RouteView::ReviewMap(trim(arg))
    } else if cmd == "/review"@ {
        RouteView::Review(trim(arg))
    } else {
        RouteView::Unknown(cmd)
    }
}

fn rename_route(ws: Workspace, arg: &str) -> (r: RenameRoute)
    ensures
        r@ == rename_spec(ws, arg@),
{
    let name = trim_str(arg);
    let empty = chars_of(name.as_str()).len() == 0;
    match ws {
        Workspace::Course => if empty {
            RenameRoute::CourseWizard
        } else {
            RenameRoute::Course(name)
        },
        Workspace::Session => if empty {
            RenameRoute::SessionWizard
        } else {
            RenameRoute::Session(name)
        },
        Workspace::Home => RenameRoute::NeedsScope,
    }
}

/// Splits a command line into its command word and its argument.
pub fn split_command(text: &str) -> (r: (String, String))
    ensures
        r.0@ == command_word(text@),
        r.1@ == command_arg(text@),
{
    let cs = chars_of(text);
    let toks = split_ws(cs.as_slice());
    let mut cmd: Vec<char> = Vec::new();
    if toks.len() > 0 {
        let first = &toks[0];
        let mut i: usize = 0;
        while i < first.len()
            invariant
                i <= first.len(),
                cmd@ == ascii_lowercase(first@.take(i as int)),
            decreases first.len() - i,
        {
            cmd.push(ascii_lower_exec(first[i]));
            proof {
                assert(first@.take(i + 1) =~= first@.take(i as int).push(first@[i as int]));
                assert(ascii_lowercase(first@.take(i + 1)) =~= ascii_lowercase(
                    first@.take(i as int),
                ).push(ascii_lower(first@[i as int])));
            }
            i = i + 1;
        }
        proof {
            assert(first@.take(first.len() as int) =~= first@);
            assert(first@ == ws_tokens(cs@)[0]);
        }
    }
    let mut rest: Vec<Vec<char>> = Vec::new();
    let start: usize = if toks.len() > 0 {
        1
    } else {
        0
    };
    let mut k: usize = start;
    while k < toks.len()
        invariant
            start <= k <= toks.len(),
            start == (if toks.len() > 0 {
                1usize
            } else {
                0usize
            }),
            vviews(rest@) == vviews(toks@).subrange(start as int, k as int),
        decreases toks.len() - k,
    {
        let t = toks[k].clone();
        proof {
            assert(t@ == vviews(toks@)[k as int]);
        }
        let ghost r0 = vviews(rest@);
        rest.push(t);
        proof {
            assert(vviews(rest@) =~= r0.push(t@));
            assert(vviews(rest@) =~= vviews(toks@).subrange(start as int, k + 1));
        }
        k = k + 1;
    }
    proof {
        assert(vviews(rest@) =~= arg_tokens(ws_tokens(cs@)));
        reveal_strlit(" ");
    }
    let sep = chars_of(" ");
    let joined = join_chars(rest.as_slice(), sep.as_slice());
    let joined_s = string_of(joined.as_slice());
    let arg = strip_placeholder_tokens(joined_s.as_str());
    (string_of(cmd.as_slice()), arg)
}

/// Routes a command line (`/name arg...`).  While a request runs, the
/// commands that switch sessions are refused.
pub fn route_command(text: &str, inflight: bool, ws: Workspace) -> (r: CommandRoute)
    ensures
        r@ == route_spec(text@, inflight, ws),
{
    let (cmd, arg) = split_command(text);
    let c = cmd.as_str();
    if (str_eq(c, "/open") || str_eq(c, "/load") || str_eq(c, "/new") || str_eq(c, "/rename"))
        && inflight {
        return CommandRoute::Busy;
    }
    if str_eq(c, "/help") {
        CommandRoute::Help
    } else if str_eq(c, "/course") {
        CommandRoute::Course(arg)
    } else if str_eq(c, "/model") {
        CommandRoute::Model(trim_str(arg.as_str()))
    } else if str_eq(c, "/test") {
        CommandRoute::Test
    } else if str_eq(c, "/new") {
        CommandRoute::New
    } else if str_eq(c, "/sessions") {
        CommandRoute::Sessions
    } else if str_eq(c, "/open") {
        CommandRoute::Open(arg)
    } else if str_eq(c, "/export") {
        CommandRoute::Export
    } else if str_eq(c, "/rename") {
        CommandRoute::Rename(rename_route(ws, arg.as_str()))
    } else if str_eq(c, "/load") {
        let t = trim_str(arg.as_str());
        if chars_of(t.as_str()).len() == 0 {
            CommandRoute::LoadUsage
        } else {
            CommandRoute::Load(t)
        }
    } else if str_eq(c, "/import") {
        CommandRoute::Import(trim_str(arg.as_str()))
    } else if str_eq(c, "/delete") {
        CommandRoute::Delete(trim_str(arg.as_str()))
    } else if str_eq(c, "/move") {
        CommandRoute::Move(trim_str(arg.as_str()))
    } else if str_eq(c, "/budget") {
        CommandRoute::Budget(trim_str(arg.as_str()))
    } else if str_eq(c, "/notes") {
        CommandRoute::Notes
    } else if str_eq(c, "/outline") {
        CommandRoute::Outline(trim_str(arg.as_str()))
    } else if str_eq(c, "/search") {
        CommandRoute::Search
    } else if str_eq(c, "/refresh-concepts") {
        CommandRoute::RefreshConcepts
    } else if str_eq(c, "/review-map") {
        CommandRoute::ReviewMap(trim_str(arg.as_str()))
    } else if str_eq(c, "/review") {
        CommandRoute::Review(trim_str(arg.as_str()))
    } else {
        CommandRoute::Unknown(cmd)
    }
}

// ---------------------------------------------------------------------------
// Arguments of single commands
// ---------------------------------------------------------------------------
/// What `/open <arg>` opens.
#[derive(Debug, Clone, Copy, PartialEq, Eq, Structural)]
pub enum OpenTarget {
    /// The session with this id.
    Session(i64),
    /// No argument: the session browser.
    Browser,
    /// Neither an id nor empty: the usage text.
    Usage,
}

pub open spec fn open_target_spec(arg: Seq<char>) -> OpenTarget {
    match parse_i64_spec(trim(arg)) {
        Some(id) => OpenTarget::Session(id),
        None => if trim(arg).len() == 0 {
            OpenTarget::Browser
        } else {
            OpenTarget::Usage
        },
    }
}

/// `/open <id>` opens a session by id; without an argument it opens the
/// session browser.
pub fn open_target(arg: &str) -> (r: OpenTarget)
    ensures
        r == open_target_spec(arg@),
{
    let cs = chars_of(arg);
    let t = trim_chars(cs.as_slice());
    match parse_i64(t.as_slice()) {
        Some(id) => OpenTarget::Session(id),
        None => if t.len() == 0 {
            OpenTarget::Browser
        } else {
            OpenTarget::Usage
        },
    }
}

/// What `/budget <arg>` asks for.
#[derive(Debug, Clone)]
pub enum BudgetArg {
    /// No argument: show spending and limit.
    Show,
    /// `reset`: clear the spending log.
    Reset,
    /// Anything else: a new limit, to be read as a positive amount.
    Limit(String),
}

/// `/budget`: no argument shows the budget, `reset` clears the spending,
/// anything else is a new limit.
pub fn budget_arg(arg: &str) -> (r: BudgetArg)
    ensures
        match r {
            BudgetArg::Show => arg@.len() == 0,
            BudgetArg::Reset => arg@ == "reset"@,
            BudgetArg::Limit(a) => arg@.len() != 0 && arg@ != "reset"@ && a@ == arg@,
        },
{
    if chars_of(arg).len() == 0 {
        BudgetArg::Show
    } else if str_eq(arg, "reset") {
        BudgetArg::Reset
    } else {
        BudgetArg::Limit(arg.to_string())
    }
}

/// `s` with every occurrence of `pat` (left to right, not overlapping)
/// replaced by `rep` (`str::replace`), from position `i` on.
pub open spec fn replace_from(s: Seq<char>, pat: Seq<char>, rep: Seq<char>, i: int) -> Seq<char>
    decreases s.len() - i,
{
    if i < 0 || i >= s.len() {
        Seq::empty()
    } else if pat.len() > 0 && occurs_at(s, pat, i) {
        rep + replace_from(s, pat, rep, i + pat.len())
    } else {
        seq![s[i]] + replace_from(s, pat, rep, i + 1)
    }
}

pub open spec fn replace_all(s: Seq<char>, pat: Seq<char>, rep: Seq<char>) -> Seq<char> {
    replace_from(s, pat, rep, 0)
}

/// `s` without the occurrences of the non-empty `pat`.
pub(crate) fn remove_all(s: &[char], pat: &[char]) -> (r: Vec<char>)
    requires
        pat.len() > 0,
    ensures
        r@ == replace_all(s@, pat@, Seq::empty()),
{
    let mut out: Vec<char> = Vec::new();
    let mut i: usize = 0;
    while i < s.len()
        invariant
            i <= s.len() + pat.len(),
            pat.len() > 0,
            out@ + replace_from(s@, pat@, Seq::empty(), i as int) == replace_all(s@, pat@, Seq::empty()),
        decreases s.len() + pat.len() - i,
    {
        if pat.len() <= s.len() - i && chars_eq(&s[i..i + pat.len()], pat) {
            proof {
                assert(s@.subrange(i as int, i + pat.len()) == pat@);
                assert(occurs_at(s@, pat@, i as int));
                assert(Seq::<char>::empty() + replace_from(s@, pat@, Seq::empty(), i + pat.len())
                    =~= replace_from(s@, pat@, Seq::empty(), i + pat.len()));
            }
            i = i + pat.len();
        } else {
            proof {
                assert(!occurs_at(s@, pat@, i as int));
            }
            let ghost o0 = out@;
            out.push(s[i]);
            proof {
                assert(out@ + replace_from(s@, pat@, Seq::empty(), i + 1) =~= o0 + (seq![s@[i as int]]
                    + replace_from(s@, pat@, Seq::empty(), i + 1)));
            }
            i = i + 1;
        }
    }
    proof {
        assert(out@ + Seq::<char>::empty() =~= out@);
    }
    out
}

/// What `/outline` is asked for: the course, and the `--regen` and
/// `--export` flags.
#[derive(Debug, Clone)]
pub struct OutlineRequest {
    pub course_id: i64,
    pub course: String,
    pub regen: bool,
    pub export: bool,
}

/// The course name of `/outline <arg>`: the argument without its flags,
/// trimmed, or the current course when nothing is left.
pub open spec fn outline_name(arg: Seq<char>, current: Seq<char>) -> Seq<char> {
    let name = trim(replace_all(replace_all(arg, "--export"@, Seq::empty()), "--regen"@, Seq::empty()));
    if name.len() == 0 {
        current
    } else {
        name
    }
}

pub open spec fn outline_all_msg() -> Seq<char> {
    "大纲需指定具体课程，不能为 all"@
}

pub open spec fn no_course_msg(name: Seq<char>) -> Seq<char> {
    "课程 `"@ + name + "` 不存在"@
}

/// `/outline [course] [--export] [--regen]`: the learning map of one real
/// course (the current one by default); `all` and unknown courses are
/// refused with a message.
pub fn outline_request(arg: &str, current: &str, courses: &[(i64, String)]) -> (r: Result<OutlineRequest, String>)
    ensures
        ({
            let name = outline_name(arg@, current@);
            match r {
                Ok(q) => name != "all"@ && course_id_spec(courses@, name) == Some(q.course_id)
                    && q.course@ == name && q.regen == contains_sub(arg@, "--regen"@) && q.export
                    == contains_sub(arg@, "--export"@),
                Err(m) => if name == "all"@ {
                    m@ == outline_all_msg()
                } else {
                    course_id_spec(courses@, name) is None && m@ == no_course_msg(name)
                },
            }
        }),
{
    let cs = chars_of(arg);
    let regen_pat = chars_of("--regen");
    let export_pat = chars_of("--export");
    proof {
        reveal_strlit("--regen");
        reveal_strlit("--export");
    }
    let regen = contains_chars(cs.as_slice(), regen_pat.as_slice());
    let export = contains_chars(cs.as_slice(), export_pat.as_slice());
    let a = remove_all(cs.as_slice(), export_pat.as_slice());
    let b = remove_all(a.as_slice(), regen_pat.as_slice());
    let t = trim_chars(b.as_slice());
    let name = if t.len() == 0 {
        current.to_string()
    } else {
        string_of(t.as_slice())
    };
    if str_eq(name.as_str(), "all") {
        return Err("大纲需指定具体课程，不能为 all".to_string());
    }
    match current_course_id(courses, name.as_str()) {
        Some(id) => Ok(OutlineRequest { course_id: id, course: name, regen, export }),
        None => {
            let mut m = "课程 `".to_string();
            m.push_str(name.as_str());
            m.push_str("` 不存在");
            Err(m)
        },
    }
}

/// What `/review <arg>` asks for.
#[derive(Debug, Clone)]
pub enum ReviewRequest {
    /// No argument: the review wizard (course taken from the current one).
    Wizard,
    /// Refused, with the message to show.
    Refused(String),
    /// The spending limit is reached: no questions are generated.
    OverBudget,
    /// Start a review: the course (none for `all`), the concept scope and
    /// the number of questions.
    Run { course_id: Option<i64>, course: String, scope: String, n: usize },
}

pub open spec fn course_names(courses: Seq<(i64, String)>) -> Seq<Seq<char>> {
    courses.map_values(|p: (i64, String)| p.1@)
}

pub open spec fn review_running_msg() -> Seq<char> {
    "复习进行中，请先完成或 Esc 退出"@
}

/// `/review <course> [concepts] [--n count]`: without an argument the
/// wizard opens; a running review or a spent budget refuses; otherwise the
/// argument is parsed and the course must exist (`all` reviews every note).
pub fn review_request(arg: &str, running: bool, over_budget: bool, courses: &[(i64, String)]) -> (r: ReviewRequest)
    ensures
        match r {
            ReviewRequest::Wizard => trim(arg@).len() == 0,
            ReviewRequest::OverBudget => trim(arg@).len() != 0 && !running && over_budget,
            ReviewRequest::Refused(m) => trim(arg@).len() != 0 && (if running {
                m@ == review_running_msg()
            } else {
                !over_budget && match review_action_spec(arg@, course_names(courses@)) {
                    Err(e) => m@ == e,
                    Ok((c, _, _)) => c != "all"@ && course_id_spec(courses@, c) is None
                        && m@ == no_course_msg(c),
                }
            }),
            ReviewRequest::Run { course_id, course, scope, n } => trim(arg@).len() != 0 && !running
                && !over_budget && review_action_spec(arg@, course_names(courses@)) == Ok::<
                (Seq<char>, Seq<char>, usize),
                Seq<char>,
            >((course@, scope@, n)) && course_id == course_id_spec(courses@, course@) && (
            course@ == "all"@ || course_id is Some),
        },
{
    if chars_of(trim_str(arg).as_str()).len() == 0 {
        return ReviewRequest::Wizard;
    }
    if running {
        return ReviewRequest::Refused("复习进行中，请先完成或 Esc 退出".to_string());
    }
    if over_budget {
        return ReviewRequest::OverBudget;
    }
    let mut known: Vec<String> = Vec::new();
    let mut i: usize = 0;
    while i < courses.len()
        invariant
            i <= courses.len(),
            views(known@) == course_names(courses@).take(i as int),
        decreases courses.len() - i,
    {
        let ghost k0 = views(known@);
        known.push(courses[i].1.clone());
        proof {
            assert(views(known@) =~= k0.push(courses@[i as int].1@));
            assert(course_names(courses@).take(i + 1) =~= course_names(courses@).take(i as int).push(
                courses@[i as int].1@,
            ));
        }
        i = i + 1;
    }
    proof {
        assert(course_names(courses@).take(courses.len() as int) =~= course_names(courses@));
    }
    match parse_review_action(arg, known.as_slice()) {
        Err(e) => ReviewRequest::Refused(e),
        Ok(spec) => {
            let course_id = current_course_id(courses, spec.course.as_str());
            if course_id.is_none() && !str_eq(spec.course.as_str(), "all") {
                let mut m = "课程 `".to_string();
                m.push_str(spec.course.as_str());
                m.push_str("` 不存在");
                return ReviewRequest::Refused(m);
            }
            ReviewRequest::Run { course_id, course: spec.course, scope: spec.scope, n: spec.n }
        },
    }
}

} // verus!
