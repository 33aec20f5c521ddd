//! Top-level information architecture: Home → Course → Session, the cursor
//! layouts of the Home and Course views, and where a key goes.
use vstd::prelude::*;
use crate::input_edit::{delete_at, delete_at_spec, delete_before, delete_before_spec, insert_char, insert_spec};
use crate::keys::{Key, KeyCode};
use crate::palette::{signed_decimal, signed_decimal_string};
use crate::text::{chars_of, str_eq, views};

verus! {

/// The three workspaces are UI state; they are never written to history.
#[derive(Debug, Clone, Copy, PartialEq, Eq, Structural)]
pub enum Workspace {
    /// Launchpad: continue learning, the courses, and "+ New Course".
    Home,
    /// A course: statistics, continue, knowledge, materials, recent learning.
    Course,
    /// The working area: chat, review, outline, import output.
    Session,
}

/// A stored chat session, as the navigation reads it (most recent first).
#[derive(Debug, Clone)]
pub struct SessionMeta {
    pub id: i64,
    pub title: Option<String>,
    /// `None`: a session of the global scope.
    pub course_id: Option<i64>,
    pub created_at: String,
}

/// Name shown for the global scope.
pub const GLOBAL_LABEL: &'static str = "Global";

/// Title shown for a session without one.
pub const UNTITLED: &'static str = "(未命名)";

/// Name of the pseudo course that stands for the global scope.
pub const ALL_COURSES: &'static str = "all";

// ---------------------------------------------------------------------------
// Courses and sessions
// ---------------------------------------------------------------------------
/// Index of the first course with id `id`, searching from `i`.
pub open spec fn course_index_by_id(courses: Seq<(i64, String)>, id: i64, i: int) -> Option<int>
    decreases courses.len() - i,
{
    if i < 0 || i >= courses.len() {
        None
    } else if courses[i].0 == id {
        Some(i)
    } else {
        course_index_by_id(courses, id, i + 1)
    }
}

/// Index of the first course named `name`, searching from `i`.
pub open spec fn course_index_by_name(courses: Seq<(i64, String)>, name: Seq<char>, i: int) -> Option<int>
    decreases courses.len() - i,
{
    if i < 0 || i >= courses.len() {
        None
    } else if courses[i].1@ == name {
        Some(i)
    } else {
        course_index_by_name(courses, name, i + 1)
    }
}

/// The label of a course id: the course's name, or "Global" for the global
/// scope and for an id that names no course.
pub open spec fn label_spec(courses: Seq<(i64, String)>, id: Option<i64>) -> Seq<char> {
    match id {
        Some(i) => match course_index_by_id(courses, i, 0) {
            Some(k) => courses[k].1@,
            None => GLOBAL_LABEL@,
        },
        None => GLOBAL_LABEL@,
    }
}

/// The id of the current course: none for "all" and for an unknown name.
pub open spec fn course_id_spec(courses: Seq<(i64, String)>, course: Seq<char>) -> Option<i64> {
    if course == ALL_COURSES@ {
        None
    } else {
        match course_index_by_name(courses, course, 0) {
            Some(k) => Some(courses[k].0),
            None => None,
        }
    }
}

/// The course to land on at start-up: when courses exist and the current
/// one is "all" or no longer listed, the first course; otherwise no change.
pub open spec fn startup_course_spec(courses: Seq<(i64, String)>, course: Seq<char>) -> Option<Seq<char>> {
    if courses.len() > 0 && (course == ALL_COURSES@ || course_index_by_name(courses, course, 0) is None) {
        Some(courses[0].1@)
    } else {
        None
    }
}

/// Start-up recovery of the current course (see `startup_course_spec`).
pub fn startup_course(courses: &[(i64, String)], course: &str) -> (r: Option<String>)
    ensures
        match r {
            Some(n) => startup_course_spec(courses@, course@) == Some(n@),
            None => startup_course_spec(courses@, course@) is None,
        },
{
    if courses.len() == 0 {
        return None;
    }
    let mut listed = false;
    let mut i: usize = 0;
    while i < courses.len()
        invariant
            i <= courses.len(),
            !listed ==> course_index_by_name(courses@, course@, 0) == course_index_by_name(
                courses@,
                course@,
                i as int,
            ),
            listed ==> course_index_by_name(courses@, course@, 0) is Some,
        decreases courses.len() - i,
    {
        if !listed && str_eq(courses[i].1.as_str(), course) {
            listed = true;
        }
        i = i + 1;
    }
    if str_eq(course, ALL_COURSES) || !listed {
        Some(courses[0].1.clone())
    } else {
        None
    }
}

/// Index of the first session of a real course, searching from `i`.
pub open spec fn real_session_from(s: Seq<SessionMeta>, i: int) -> Option<int>
    decreases s.len() - i,
{
    if i < 0 || i >= s.len() {
        None
    } else if s[i].course_id is Some {
        Some(i)
    } else {
        real_session_from(s, i + 1)
    }
}

/// The session that Continue opens: the most recent one of a real course;
/// the most recent one of the global scope only when there is none.
pub open spec fn continue_index(s: Seq<SessionMeta>) -> Option<int> {
    match real_session_from(s, 0) {
        Some(i) => Some(i),
        None => if s.len() > 0 {
            Some(0)
        } else {
            None
        },
    }
}

pub open spec fn title_or_untitled(t: Option<String>) -> Seq<char> {
    match t {
        Some(x) => x@,
        None => UNTITLED@,
    }
}

/// Ids of the sessions of course `cid`, most recent first.
pub open spec fn sessions_of(s: Seq<SessionMeta>, cid: Option<i64>) -> Seq<i64>
    decreases s.len(),
{
    if s.len() == 0 {
        Seq::empty()
    } else if s[0].course_id == cid {
        seq![s[0].id] + sessions_of(s.drop_first(), cid)
    } else {
        sessions_of(s.drop_first(), cid)
    }
}

/// `min(a, b)` on naturals.
pub open spec fn min_of(a: int, b: int) -> int {
    if a <= b {
        a
    } else {
        b
    }
}

/// The label of a course id (see `label_spec`).
pub fn course_label(courses: &[(i64, String)], course_id: Option<i64>) -> (r: String)
    ensures
        r@ == label_spec(courses@, course_id),
{
    match course_id {
        Some(id) => {
            let mut i: usize = 0;
            while i < courses.len()
                invariant
                    i <= courses.len(),
                    course_id == Some(id),
                    course_index_by_id(courses@, id, 0) == course_index_by_id(courses@, id, i as int),
                decreases courses.len() - i,
            {
                if courses[i].0 == id {
                    assert(course_index_by_id(courses@, id, i as int) == Some(i as int));
                    return courses[i].1.clone();
                }
                i = i + 1;
            }
            GLOBAL_LABEL.to_owned()
        },
        None => GLOBAL_LABEL.to_owned(),
    }
}

/// The id of the current course (none in the global scope).
pub fn current_course_id(courses: &[(i64, String)], course: &str) -> (r: Option<i64>)
    ensures
        r == course_id_spec(courses@, course@),
{
    if str_eq(course, ALL_COURSES) {
        return None;
    }
    let mut i: usize = 0;
    while i < courses.len()
        invariant
            course@ != ALL_COURSES@,
            i <= courses.len(),
            course_index_by_name(courses@, course@, 0) == course_index_by_name(
                courses@,
                course@,
                i as int,
            ),
        decreases courses.len() - i,
    {
        if str_eq(courses[i].1.as_str(), course) {
            assert(course_index_by_name(courses@, course@, i as int) == Some(i as int));
            return Some(courses[i].0);
        }
        i = i + 1;
    }
    None
}

/// Continue learning: (session id, course label, title) of the session
/// that Continue opens, if any.
pub fn continue_session(sessions: &[SessionMeta], courses: &[(i64, String)]) -> (r: Option<(i64, String, String)>)
    ensures
        match continue_index(sessions@) {
            Some(i) => r matches Some(t) && t.0 == sessions@[i].id && t.1@ == label_spec(
                courses@,
                sessions@[i].course_id,
            ) && t.2@ == title_or_untitled(sessions@[i].title),
            None => r is None,
        },
{
    let mut i: usize = 0;
    while i < sessions.len() && sessions[i].course_id.is_none()
        invariant
            i <= sessions.len(),
            real_session_from(sessions@, 0) == real_session_from(sessions@, i as int),
        decreases sessions.len() - i,
    {
        i = i + 1;
    }
    proof {
        if i < sessions.len() {
            assert(real_session_from(sessions@, i as int) == Some(i as int));
        } else {
            assert(real_session_from(sessions@, i as int) is None);
        }
    }
    let k: usize = if i < sessions.len() {
        i
    } else if sessions.len() > 0 {
        0
    } else {
        return None;
    };
    let s = &sessions[k];
    let title = match &s.title {
        Some(t) => t.clone(),
        None => UNTITLED.to_owned(),
    };
    Some((s.id, course_label(courses, s.course_id), title))
}

/// The ids of the sessions of course `cid`, most recent first.
pub fn course_sessions(sessions: &[SessionMeta], cid: Option<i64>) -> (r: Vec<i64>)
    ensures
        r@ == sessions_of(sessions@, cid),
{
    let mut r: Vec<i64> = Vec::new();
    let mut i: usize = 0;
    assert(sessions@.skip(0) =~= sessions@);
    while i < sessions.len()
        invariant
            i <= sessions.len(),
            sessions_of(sessions@, cid) == r@ + sessions_of(sessions@.skip(i as int), cid),
        decreases sessions.len() - i,
    {
        assert(sessions@.skip(i as int).drop_first() =~= sessions@.skip(i + 1));
        assert(sessions@.skip(i as int)[0] == sessions@[i as int]);
        if sessions[i].course_id == cid {
            let ghost before = r@;
            r.push(sessions[i].id);
            assert(before + (seq![sessions@[i as int].id] + sessions_of(sessions@.skip(i + 1), cid))
                =~= r@ + sessions_of(sessions@.skip(i + 1), cid));
        }
        i = i + 1;
    }
    assert(sessions@.skip(i as int) =~= Seq::<SessionMeta>::empty());
    assert(r@ + Seq::<i64>::empty() =~= r@);
    r
}

/// The line of one session in the session list: id, title ("(未命名)"
/// without one) and course label.
pub open spec fn session_line(s: SessionMeta, courses: Seq<(i64, String)>) -> Seq<char> {
    "  #"@ + signed_decimal(s.id as int) + " "@ + match s.title {
        Some(t) => t@,
        None => "(未命名)"@,
    } + " · "@ + label_spec(courses, s.course_id)
}

/// The session list as information lines: one per session, or a notice
/// that there is none yet.
pub fn session_list_lines(sessions: &[SessionMeta], courses: &[(i64, String)]) -> (r: Vec<String>)
    ensures
        sessions@.len() == 0 ==> views(r@) == seq!["尚无历史会话"@],
        sessions@.len() > 0 ==> views(r@) == sessions@.map_values(|s: SessionMeta| session_line(s, courses@)),
{
    let mut out: Vec<String> = Vec::new();
    if sessions.len() == 0 {
        out.push("尚无历史会话".to_string());
        proof {
            assert(views(out@) =~= seq!["尚无历史会话"@]);
        }
        return out;
    }
    let mut i: usize = 0;
    while i < sessions.len()
        invariant
            i <= sessions.len(),
            views(out@) == sessions@.take(i as int).map_values(|s: SessionMeta| session_line(s, courses@)),
        decreases sessions.len() - i,
    {
        let s = &sessions[i];
        let mut l = "  #".to_string();
        l.push_str(signed_decimal_string(s.id).as_str());
        l.push_str(" ");
        match &s.title {
            Some(t) => l.push_str(t.as_str()),
            None => l.push_str("(未命名)"),
        }
        l.push_str(" · ");
        l.push_str(course_label(courses, s.course_id).as_str());
        let ghost o0 = views(out@);
        out.push(l);
        proof {
            assert(views(out@) =~= o0.push(l@));
            assert(sessions@.take(i + 1).map_values(|s: SessionMeta| session_line(s, courses@)) =~= sessions@.take(
                i as int,
            ).map_values(|s: SessionMeta| session_line(s, courses@)).push(session_line(sessions@[i as int], courses@)));
        }
        i = i + 1;
    }
    proof {
        assert(sessions@.take(sessions.len() as int) =~= sessions@);
    }
    out
}

// ---------------------------------------------------------------------------
// Home view: [AI setup] [Continue?] courses... [+ New Course]
// ---------------------------------------------------------------------------
/// Rows of the Home view.  The AI entry is always first; without courses
/// only "+ New Course" follows it.
pub open spec fn home_count_spec(n_courses: nat, has_continue: bool) -> int {
    if n_courses == 0 {
        2
    } else {
        1 + n_courses + (if has_continue {
            1int
        } else {
            0
        }) + 1
    }
}

/// Number of selectable rows of the Home view.
pub fn home_cursor_count(n_courses: usize, has_continue: bool) -> (r: usize)
    requires
        n_courses + 3 <= usize::MAX,
    ensures
        r == home_count_spec(n_courses as nat, has_continue),
{
    if n_courses == 0 {
        return 2;
    }
    let items = if has_continue {
        n_courses + 1
    } else {
        n_courses
    };
    1 + items + 1
}

/// Row of the first course in the Home view.
pub open spec fn course_offset(has_continue: bool) -> int {
    1 + if has_continue {
        1int
    } else {
        0
    }
}

/// The Home row of the current course (the cursor follows the course after
/// it is created, switched, deleted or left); 0 when it is not listed.
pub open spec fn home_cursor_spec(courses: Seq<(i64, String)>, course: Seq<char>, has_continue: bool) -> int {
    if courses.len() == 0 {
        0
    } else {
        match course_index_by_name(courses, course, 0) {
            Some(i) => course_offset(has_continue) + i,
            None => 0,
        }
    }
}

/// The Home cursor that points at `course`.
pub fn home_cursor_for(courses: &[(i64, String)], course: &str, has_continue: bool) -> (r: usize)
    requires
        courses.len() + 2 <= usize::MAX,
    ensures
        r == home_cursor_spec(courses@, course@, has_continue),
{
    if courses.len() == 0 {
        return 0;
    }
    let offset: usize = if has_continue {
        2
    } else {
        1
    };
    let mut i: usize = 0;
    while i < courses.len()
        invariant
            i <= courses.len(),
            courses.len() + 2 <= usize::MAX,
            offset == (if has_continue {
                2usize
            } else {
                1usize
            }),
            course_index_by_name(courses@, course@, 0) == course_index_by_name(
                courses@,
                course@,
                i as int,
            ),
        decreases courses.len() - i,
    {
        if str_eq(courses[i].1.as_str(), course) {
            assert(course_index_by_name(courses@, course@, i as int) == Some(i as int));
            return offset + i;
        }
        i = i + 1;
    }
    0
}

/// The course under the Home cursor, if the cursor is on a course row.
pub open spec fn home_course_spec(courses: Seq<(i64, String)>, cursor: int, has_continue: bool) -> Option<Seq<char>> {
    let i = cursor - course_offset(has_continue);
    if 0 <= i < courses.len() {
        Some(courses[i].1@)
    } else {
        None
    }
}

/// The course under the Home cursor.
pub fn home_cursor_course(courses: &[(i64, String)], cursor: usize, has_continue: bool) -> (r: Option<String>)
    ensures
        match r {
            Some(n) => home_course_spec(courses@, cursor as int, has_continue) == Some(n@),
            None => home_course_spec(courses@, cursor as int, has_continue) is None,
        },
{
    let offset: usize = if has_continue {
        2
    } else {
        1
    };
    if cursor < offset {
        return None;
    }
    let i = cursor - offset;
    if i < courses.len() {
        Some(courses[i].1.clone())
    } else {
        None
    }
}

/// What Enter on a Home row does.
#[derive(Debug, Clone)]
pub enum HomeChoice {
    /// The AI setup wizard.
    Setup,
    /// The course creation wizard.
    NewCourse,
    /// Open the session in its course's partition.
    Continue { session: i64, course: String },
    /// Enter the course workspace.
    EnterCourse(String),
    /// Nothing under the cursor.
    Nothing,
}

/// Enter on the Home view.  `cont` is the Continue target (see
/// `continue_session`); the last row is "+ New Course", row 0 the AI entry.
pub fn home_choice(cursor: usize, courses: &[(i64, String)], cont: &Option<(i64, String, String)>) -> (r: HomeChoice)
    requires
        courses.len() + 3 <= usize::MAX,
    ensures
        ({
            let count = home_count_spec(courses@.len(), cont is Some);
            let i = cursor - course_offset(cont is Some);
            if cursor == count - 1 {
                r is NewCourse
            } else if cursor == 0 {
                r is Setup
            } else if cursor == 1 && cont is Some {
                match *cont {
                    Some(t) => r matches HomeChoice::Continue { session, course } && session == t.0
                        && course@ == t.1@,
                    None => false,
                }
            } else if 0 <= i < courses@.len() {
                r matches HomeChoice::EnterCourse(n) && n@ == courses@[i].1@
            } else {
                r is Nothing
            }
        }),
{
    let has_continue = cont.is_some();
    let count = home_cursor_count(courses.len(), has_continue);
    if cursor == count - 1 {
        return HomeChoice::NewCourse;
    }
    if cursor == 0 {
        return HomeChoice::Setup;
    }
    if cursor == 1 {
        if let Some((id, course, _)) = cont {
            return HomeChoice::Continue { session: *id, course: course.clone() };
        }
    }
    let offset: usize = if has_continue {
        2
    } else {
        1
    };
    if cursor >= offset && cursor - offset < courses.len() {
        HomeChoice::EnterCourse(courses[cursor - offset].1.clone())
    } else {
        HomeChoice::Nothing
    }
}

// ---------------------------------------------------------------------------
// Course view: [Continue?] New conversation, Review Map, Outline, Import,
// then up to three recent sessions of the course.
// ---------------------------------------------------------------------------
/// Rows of the Course view.
pub open spec fn course_count_spec(recent: Seq<i64>) -> int {
    (if recent.len() > 0 {
        5int
    } else {
        4
    }) + min_of(recent.len() as int, 3)
}

/// Number of selectable rows of the Course view.
pub fn course_cursor_count(sessions: &[SessionMeta], cid: Option<i64>) -> (r: usize)
    ensures
        r == course_count_spec(sessions_of(sessions@, cid)),
{
    let ids = course_sessions(sessions, cid);
    let base: usize = if ids.len() > 0 {
        5
    } else {
        4
    };
    let recent: usize = if ids.len() < 3 {
        ids.len()
    } else {
        3
    };
    base + recent
}

/// What Enter on a Course row does.
#[derive(Debug, Clone, Copy, PartialEq, Eq, Structural)]
pub enum CourseChoice {
    OpenSession(i64),
    NewConversation,
    ReviewMap,
    Outline,
    Import,
    Nothing,
}

pub open spec fn course_choice_spec(cursor: int, recent: Seq<i64>) -> CourseChoice {
    let has_continue = recent.len() > 0;
    if has_continue && cursor == 0 {
        CourseChoice::OpenSession(recent[0])
    } else {
        let i = if has_continue {
            cursor - 1
        } else {
            cursor
        };
        if i == 0 {
            CourseChoice::NewConversation
        } else if i == 1 {
            CourseChoice::ReviewMap
        } else if i == 2 {
            CourseChoice::Outline
        } else if i == 3 {
            CourseChoice::Import
        } else if i - 4 < min_of(recent.len() as int, 3) {
            CourseChoice::OpenSession(recent[i - 4])
        } else {
            CourseChoice::Nothing
        }
    }
}

/// Enter on the Course view of course `cid`.
pub fn course_choice(cursor: usize, sessions: &[SessionMeta], cid: Option<i64>) -> (r: CourseChoice)
    ensures
        r == course_choice_spec(cursor as int, sessions_of(sessions@, cid)),
{
    let ids = course_sessions(sessions, cid);
    let has_continue = ids.len() > 0;
    if has_continue && cursor == 0 {
        return CourseChoice::OpenSession(ids[0]);
    }
    let i = if has_continue {
        cursor - 1
    } else {
        cursor
    };
    if i == 0 {
        CourseChoice::NewConversation
    } else if i == 1 {
        CourseChoice::ReviewMap
    } else if i == 2 {
        CourseChoice::Outline
    } else if i == 3 {
        CourseChoice::Import
    } else {
        let idx = i - 4;
        if idx < 3 && idx < ids.len() {
            CourseChoice::OpenSession(ids[idx])
        } else {
            CourseChoice::Nothing
        }
    }
}

// ---------------------------------------------------------------------------
// Esc, interrupts and the Home delete key
// ---------------------------------------------------------------------------
/// What Esc (or Ctrl+C) asks for.
#[derive(Debug, Clone, Copy, PartialEq, Eq, Structural)]
pub enum EscAction {
    /// An import runs: cancel it.
    CancelImport,
    /// A request runs: cancel it.
    CancelRequest,
    /// Go up one workspace.
    Back,
    Quit,
}

/// Esc in the chat: a running import or request is interrupted first;
/// otherwise Session and Course go back, and Home quits.
pub fn esc_action(importing: bool, inflight: bool, ws: Workspace) -> (r: EscAction)
    ensures
        r == (if importing {
            EscAction::CancelImport
        } else if inflight {
            EscAction::CancelRequest
        } else if ws != Workspace::Home {
            EscAction::Back
        } else {
            EscAction::Quit
        }),
{
    if importing {
        EscAction::CancelImport
    } else if inflight {
        EscAction::CancelRequest
    } else if ws != Workspace::Home {
        EscAction::Back
    } else {
        EscAction::Quit
    }
}

/// Ctrl+C: interrupts what runs, and quits when nothing does.
pub fn interrupt_action(importing: bool, inflight: bool) -> (r: EscAction)
    ensures
        r == (if importing {
            EscAction::CancelImport
        } else if inflight {
            EscAction::CancelRequest
        } else {
            EscAction::Quit
        }),
{
    if importing {
        EscAction::CancelImport
    } else if inflight {
        EscAction::CancelRequest
    } else {
        EscAction::Quit
    }
}

/// Where going back leads: Session → Course (the current course), Course →
/// Home (the cursor on the current course); Home stays.
pub open spec fn back_of(ws: Workspace) -> Workspace {
    match ws {
        Workspace::Session => Workspace::Course,
        _ => Workspace::Home,
    }
}

/// Goes back one workspace; returns the new Home cursor when the Home view
/// is entered.
pub fn go_back(ws: &mut Workspace, courses: &[(i64, String)], course: &str, has_continue: bool) -> (r: Option<usize>)
    requires
        courses.len() + 2 <= usize::MAX,
    ensures
        *final(ws) == back_of(*old(ws)),
        match *old(ws) {
            Workspace::Course => r == Some(home_cursor_spec(courses@, course@, has_continue) as usize),
            _ => r is None,
        },
{
    match *ws {
        Workspace::Session => {
            *ws = Workspace::Course;
            None
        },
        Workspace::Course => {
            *ws = Workspace::Home;
            Some(home_cursor_for(courses, course, has_continue))
        },
        Workspace::Home => None,
    }
}

/// The two-step delete key of the Home view.
#[derive(Debug, Clone)]
pub struct HomeDelete {
    pub armed: bool,
    pub target: Option<String>,
}

/// What a press of `d` on the Home view does.
#[derive(Debug, Clone)]
pub enum DeleteStep {
    /// The cursor is not on a course.
    Nothing,
    /// First press: ask to press again for this course.
    Confirm(String),
    /// Second press on the same course: delete it.
    Delete(String),
}

impl HomeDelete {
    pub fn new() -> (r: HomeDelete)
        ensures
            !r.armed && r.target is None,
    {
        HomeDelete { armed: false, target: None }
    }

    /// `d` on the course `course` under the cursor (none: not on a course).
    pub fn press(&mut self, course: Option<String>) -> (r: DeleteStep)
        ensures
            match course {
                None => r is Nothing && final(self).armed == old(self).armed && final(self).target == old(self).target,
                Some(c) => if old(self).armed && (old(self).target matches Some(t) && t@ == c@) {
                    r matches DeleteStep::Delete(d) && d@ == c@ && !final(self).armed
                        && final(self).target is None
                } else {
                    &&& r matches DeleteStep::Confirm(d) && d@ == c@
                    &&& final(self).armed
                    &&& final(self).target matches Some(t) && t@ == c@
                },
            },
    {
        let c = match course {
            Some(c) => c,
            None => return DeleteStep::Nothing,
        };
        let same = match &self.target {
            Some(t) => str_eq(t.as_str(), c.as_str()),
            None => false,
        };
        if self.armed && same {
            self.armed = false;
            self.target = None;
            DeleteStep::Delete(c)
        } else {
            self.armed = true;
            self.target = Some(c.clone());
            DeleteStep::Confirm(c)
        }
    }
}

// ---------------------------------------------------------------------------
// The shared input line and its backup while an overlay uses it
// ---------------------------------------------------------------------------
/// The chat input line.  Overlays (palette, pickers, browsers, wizards) use
/// it as their own input; the text typed before is kept aside meanwhile.
#[derive(Debug, Clone)]
pub struct InputLine {
    pub input: String,
    /// Cursor, in characters.
    pub cursor_pos: usize,
    /// The chat text saved when the first overlay took the line.
    pub backup: Option<String>,
}

/// The input line as values: text, cursor (in characters), saved chat text.
pub struct InputLineView {
    pub input: Seq<char>,
    pub cursor: nat,
    pub backup: Option<Seq<char>>,
}

impl View for InputLine {
    type V = InputLineView;

    open spec fn view(&self) -> InputLineView {
        InputLineView {
            input: self.input@,
            cursor: self.cursor_pos as nat,
            backup: match self.backup {
                Some(b) => Some(b@),
                None => None,
            },
        }
    }
}

/// An overlay takes the line: the first one saves the chat text and clears
/// the line; a nested one leaves the saved text alone.  The cursor goes home.
pub open spec fn take_spec(v: InputLineView) -> InputLineView {
    match v.backup {
        None => InputLineView { input: Seq::empty(), cursor: 0, backup: Some(v.input) },
        Some(_) => InputLineView { cursor: 0, ..v },
    }
}

/// An overlay is cancelled: the saved text comes back with the cursor at its
/// end; without a saved text the line stays as it is.
pub open spec fn restore_spec(v: InputLineView) -> InputLineView {
    match v.backup {
        Some(b) => InputLineView { input: b, cursor: b.len(), backup: None },
        None => v,
    }
}

/// `n` overlays opened one inside the other.
pub open spec fn take_n(v: InputLineView, n: nat) -> InputLineView
    decreases n,
{
    if n == 0 {
        v
    } else {
        take_spec(take_n(v, (n - 1) as nat))
    }
}

impl InputLine {
    pub fn new() -> (r: InputLine)
        ensures
            r@ == (InputLineView { input: Seq::empty(), cursor: 0, backup: None }),
    {
        InputLine { input: String::new(), cursor_pos: 0, backup: None }
    }

    /// An overlay takes the line: the chat text is saved and cleared.  Only
    /// the first overlay saves, so that nested overlays do not lose it.
    pub fn take_for_overlay(&mut self)
        ensures
            final(self)@ == take_spec(old(self)@),
    {
        if self.backup.is_none() {
            let prev = self.input.clone();
            self.backup = Some(prev);
            self.input = String::new();
        }
        self.cursor_pos = 0;
    }

    /// An overlay is cancelled: the saved chat text comes back, with the
    /// cursor at its end.  Without a saved text nothing changes.
    pub fn restore_backup(&mut self)
        ensures
            final(self)@ == restore_spec(old(self)@),
    {
        match self.backup.take() {
            Some(prev) => {
                let n = chars_of(prev.as_str()).len();
                self.input = prev;
                self.cursor_pos = n;
            },
            None => {},
        }
    }

    /// An overlay completed: the saved text is dropped.
    pub fn drop_backup(&mut self)
        ensures
            final(self)@ == (InputLineView { backup: None, ..old(self)@ }),
    {
        self.backup = None;
    }
}

/// However deeply overlays nest, cancelling gives back the chat text typed
/// before the first one opened, with the cursor at its end.
pub proof fn law_nested_overlays_keep_chat_text(v: InputLineView, n: nat)
    requires
        v.backup is None,
        n >= 1,
    ensures
        restore_spec(take_n(v, n)) == (InputLineView { input: v.input, cursor: v.input.len(), backup: None }),
    decreases n,
{
    if n > 1 {
        law_nested_overlays_keep_chat_text(v, (n - 1) as nat);
        assert(take_n(v, (n - 1) as nat).backup == Some(v.input));
    }
}

/// The Home cursor follows the current course: the row that
/// `home_cursor_for` picks for a listed course is that course's row.
pub proof fn law_home_cursor_follows_course(courses: Seq<(i64, String)>, course: Seq<char>, has_continue: bool)
    requires
        course_index_by_name(courses, course, 0) is Some,
    ensures
        home_course_spec(courses, home_cursor_spec(courses, course, has_continue), has_continue)
            == Some(course),
{
    lemma_index_by_name(courses, course, 0);
}

proof fn lemma_index_by_name(courses: Seq<(i64, String)>, name: Seq<char>, i: int)
    requires
        i >= 0,
    ensures
        course_index_by_name(courses, name, i) matches Some(k) ==> i <= k < courses.len()
            && courses[k].1@ == name,
    decreases courses.len() - i,
{
    if i < courses.len() && courses[i].1@ != name {
        lemma_index_by_name(courses, name, i + 1);
    }
}

// ---------------------------------------------------------------------------
// Keys
// ---------------------------------------------------------------------------
/// What a key on the Home or Course view asks for.
#[derive(Debug, Clone, Copy, PartialEq, Eq, Structural)]
pub enum NavAction {
    Nothing,
    /// Enter on Home.
    HomeActivate,
    /// Enter on Course.
    CourseActivate,
    /// `d` on Home: the two-step course deletion.
    DeleteCourse,
    /// Ctrl+K.
    OpenPalette,
    Quit,
}

/// A key on the Home or Course view (no overlay open): ↑↓ move the cursor
/// among `count` rows, Enter activates, Esc goes Course → Home or quits on
/// Home, `d` deletes on Home, Ctrl+C / Ctrl+Q quit, Ctrl+K opens the palette.
pub fn nav_key(
    ws: &mut Workspace,
    home_cursor: &mut usize,
    course_cursor: &mut usize,
    key: Key,
    home_count: usize,
    course_count: usize,
) -> (r: NavAction)
    requires
        *old(ws) != Workspace::Session,
    ensures
        ({
            let on_home = *old(ws) == Workspace::Home;
            let n = if on_home {
                home_count
            } else {
                course_count
            };
            let cur = if on_home {
                *old(home_cursor)
            } else {
                *old(course_cursor)
            };
            let new_cur = if on_home {
                *final(home_cursor)
            } else {
                *final(course_cursor)
            };
            let other_kept = if on_home {
                *final(course_cursor) == *old(course_cursor)
            } else {
                *final(home_cursor) == *old(home_cursor)
            };
            match key.code {
                KeyCode::Up => r is Nothing && *final(ws) == *old(ws) && other_kept && new_cur == (
                if cur > 0 {
                    cur - 1
                } else {
                    0
                }),
                KeyCode::Down => r is Nothing && *final(ws) == *old(ws) && other_kept && new_cur
                    == min_of(cur + 1, if n > 0 {
                    n - 1
                } else {
                    0
                }),
                KeyCode::Enter => *final(ws) == *old(ws) && *final(home_cursor) == *old(home_cursor) && *final(course_cursor) == *old(course_cursor) && r == (if on_home {
                    NavAction::HomeActivate
                } else {
                    NavAction::CourseActivate
                }),
                KeyCode::Esc => *final(course_cursor) == *old(course_cursor) && if on_home {
                    r is Quit && *final(ws) == *old(ws) && *final(home_cursor) == *old(home_cursor)
                } else {
                    r is Nothing && *final(ws) == Workspace::Home && *final(home_cursor) == 0
                },
                KeyCode::Char(c) => *final(ws) == *old(ws) && *final(home_cursor) == *old(home_cursor) && *final(course_cursor) == *old(course_cursor) && r == (if c == 'd'
                    && on_home {
                    NavAction::DeleteCourse
                } else if key.ctrl && (c == 'c' || c == 'q') {
                    NavAction::Quit
                } else if key.ctrl && c == 'k' {
                    NavAction::OpenPalette
                } else {
                    NavAction::Nothing
                }),
                _ => r is Nothing && *final(ws) == *old(ws) && *final(home_cursor) == *old(home_cursor) && *final(course_cursor) == *old(course_cursor),
            }
        }),
{
    let on_home = *ws == Workspace::Home;
    match key.code {
        KeyCode::Up => {
            if on_home {
                if *home_cursor > 0 {
                    *home_cursor = *home_cursor - 1;
                }
            } else if *course_cursor > 0 {
                *course_cursor = *course_cursor - 1;
            }
            NavAction::Nothing
        },
        KeyCode::Down => {
            let n = if on_home {
                home_count
            } else {
                course_count
            };
            let last = if n > 0 {
                n - 1
            } else {
                0
            };
            if on_home {
                *home_cursor = if *home_cursor < last {
                    *home_cursor + 1
                } else {
                    last
                };
            } else {
                *course_cursor = if *course_cursor < last {
                    *course_cursor + 1
                } else {
                    last
                };
            }
            NavAction::Nothing
        },
        KeyCode::Enter => if on_home {
            NavAction::HomeActivate
        } else {
            NavAction::CourseActivate
        },
        KeyCode::Esc => {
            if on_home {
                NavAction::Quit
            } else {
                *ws = Workspace::Home;
                *home_cursor = 0;
                NavAction::Nothing
            }
        },
        KeyCode::Char(c) => {
            if c == 'd' && on_home {
                NavAction::DeleteCourse
            } else if key.ctrl && (c == 'c' || c == 'q') {
                NavAction::Quit
            } else if key.ctrl && c == 'k' {
                NavAction::OpenPalette
            } else {
                NavAction::Nothing
            }
        },
        _ => NavAction::Nothing,
    }
}

/// What a key on the chat input asks for besides editing.
#[derive(Debug, Clone, Copy, PartialEq, Eq, Structural)]
pub enum InputAction {
    Nothing,
    /// The text changed: filters that read it (palette, browsers) follow.
    Edited,
    Submit,
    /// Esc: interrupt or go back (see `esc_action`).
    EscOrBack,
    /// Ctrl+C: interrupt or quit (see `interrupt_action`).
    InterruptOrQuit,
    /// Ctrl+Q.
    QuitNow,
    /// Ctrl+K.
    OpenPalette,
}

/// A key on the chat input (no overlay consumed it): editing, cursor
/// movement, scrolling, and the commands bound to keys.
pub fn input_key(line: &mut InputLine, scroll_up: &mut u16, key: Key) -> (r: InputAction)
    requires
        old(line).cursor_pos < usize::MAX,
    ensures
        final(line).backup == old(line).backup,
        ({
            let s = old(line).input@;
            let p = old(line).cursor_pos as int;
            let same_line = final(line).input@ == s && final(line).cursor_pos == old(line).cursor_pos;
            match key.code {
                KeyCode::Char(c) => if key.ctrl {
                    same_line && *final(scroll_up) == *old(scroll_up) && r == (if c == 'k' {
                        InputAction::OpenPalette
                    } else if c == 'c' {
                        InputAction::InterruptOrQuit
                    } else if c == 'q' {
                        InputAction::QuitNow
                    } else {
                        InputAction::Nothing
                    })
                } else {
                    r is Edited && *final(scroll_up) == *old(scroll_up) && (final(line).input@, final(line).cursor_pos as int) == insert_spec(s, p, c)
                },
                KeyCode::Esc => r is EscOrBack && same_line && *final(scroll_up) == *old(scroll_up),
                KeyCode::Enter => r is Submit && same_line && *final(scroll_up) == *old(scroll_up),
                KeyCode::Left => r is Nothing && final(line).input@ == s && final(line).cursor_pos
                    == (if p > 0 {
                    p - 1
                } else {
                    0
                }) && *final(scroll_up) == *old(scroll_up),
                KeyCode::Right => r is Nothing && final(line).input@ == s && final(line).cursor_pos
                    == min_of(p + 1, s.len() as int) && *final(scroll_up) == *old(scroll_up),
                KeyCode::Home => r is Nothing && final(line).input@ == s && final(line).cursor_pos
                    == 0 && *final(scroll_up) == *old(scroll_up),
                KeyCode::End => r is Nothing && final(line).input@ == s && final(line).cursor_pos
                    == s.len() && *final(scroll_up) == *old(scroll_up),
                KeyCode::Backspace => r is Edited && *final(scroll_up) == *old(scroll_up) && (final(line).input@, final(line).cursor_pos as int) == delete_before_spec(s, p),
                KeyCode::Delete => r is Edited && *final(scroll_up) == *old(scroll_up) && final(line).input@ == delete_at_spec(s, p) && final(line).cursor_pos == old(line).cursor_pos,
                KeyCode::PageUp => r is Nothing && same_line && *final(scroll_up) == min_of(
                    *old(scroll_up) + 10,
                    u16::MAX as int,
                ),
                KeyCode::PageDown => r is Nothing && same_line && *final(scroll_up) == (if *old(scroll_up) >= 10 {
                    *old(scroll_up) - 10
                } else {
                    0
                }),
                _ => r is Nothing && same_line && *final(scroll_up) == *old(scroll_up),
            }
        }),
{
    match key.code {
        KeyCode::Char(c) => {
            if key.ctrl {
                if c == 'k' {
                    InputAction::OpenPalette
                } else if c == 'c' {
                    InputAction::InterruptOrQuit
                } else if c == 'q' {
                    InputAction::QuitNow
                } else {
                    InputAction::Nothing
                }
            } else {
                line.cursor_pos = insert_char(&mut line.input, line.cursor_pos, c);
                InputAction::Edited
            }
        },
        KeyCode::Esc => InputAction::EscOrBack,
        KeyCode::Enter => InputAction::Submit,
        KeyCode::Left => {
            if line.cursor_pos > 0 {
                line.cursor_pos = line.cursor_pos - 1;
            }
            InputAction::Nothing
        },
        KeyCode::Right => {
            let len = chars_of(line.input.as_str()).len();
            let next = line.cursor_pos + 1;
            line.cursor_pos = if next < len {
                next
            } else {
                len
            };
            InputAction::Nothing
        },
        KeyCode::Home => {
            line.cursor_pos = 0;
            InputAction::Nothing
        },
        KeyCode::End => {
            line.cursor_pos = chars_of(line.input.as_str()).len();
            InputAction::Nothing
        },
        KeyCode::Backspace => {
            line.cursor_pos = delete_before(&mut line.input, line.cursor_pos);
            InputAction::Edited
        },
        KeyCode::Delete => {
            delete_at(&mut line.input, line.cursor_pos);
            InputAction::Edited
        },
        KeyCode::PageUp => {
            *scroll_up = scroll_up.saturating_add(10);
            InputAction::Nothing
        },
        KeyCode::PageDown => {
            *scroll_up = scroll_up.saturating_sub(10);
            InputAction::Nothing
        },
        _ => InputAction::Nothing,
    }
}

/// The parts of the screen that can take a key, in the order in which
/// they get it.
#[derive(Debug, Clone, Copy, PartialEq, Eq, Structural)]
pub enum Layer {
    Setup,
    Warmup,
    /// Home/Course navigation (takes every key).
    Nav,
    /// The review workspace (takes every key).
    Review,
    Wizard,
    ListPicker,
    ReviewMapPicker,
    NoteBrowser,
    SessionBrowser,
    Palette,
    /// The model picker (takes every key).
    ModelPicker,
    /// The chat input (takes every key).
    Input,
}

/// Which overlays are open.
#[derive(Debug, Clone, Copy, PartialEq, Eq, Structural)]
pub struct Overlays {
    pub setup: bool,
    pub warmup: bool,
    pub review: bool,
    pub wizard: bool,
    pub list_picker: bool,
    pub review_map_picker: bool,
    pub note_browser: bool,
    pub session_browser: bool,
    pub palette: bool,
    pub model_picker: bool,
}

pub open spec fn opt_layer(open: bool, l: Layer) -> Seq<Layer> {
    if open {
        seq![l]
    } else {
        Seq::empty()
    }
}

/// The order in which the layers are offered a key: the setup wizard and
/// the warm-up first; then on Home/Course without a dialog the navigation;
/// otherwise the review, the dialogs, and the input last.  A layer that
/// declines passes the key on; Nav, Review, ModelPicker and Input never decline.
pub open spec fn layers_spec(o: Overlays, ws: Workspace) -> Seq<Layer> {
    opt_layer(o.setup, Layer::Setup) + opt_layer(o.warmup, Layer::Warmup) + if ws
        != Workspace::Session && !o.wizard && !o.palette && !o.model_picker && !o.list_picker {
        seq![Layer::Nav]
    } else if o.review {
        seq![Layer::Review]
    } else {
        dialog_layers_spec(o)
    }
}

/// The dialogs in the order in which they are offered a key, then the
/// model picker or else the input.
pub open spec fn dialog_layers_spec(o: Overlays) -> Seq<Layer> {
    opt_layer(o.wizard, Layer::Wizard) + opt_layer(o.list_picker, Layer::ListPicker) + opt_layer(
        o.review_map_picker,
        Layer::ReviewMapPicker,
    ) + opt_layer(o.note_browser, Layer::NoteBrowser) + opt_layer(
        o.session_browser,
        Layer::SessionBrowser,
    ) + opt_layer(o.palette, Layer::Palette) + if o.model_picker {
        seq![Layer::ModelPicker]
    } else {
        seq![Layer::Input]
    }
}

fn push_if(v: &mut Vec<Layer>, open: bool, l: Layer)
    ensures
        final(v)@ == old(v)@ + opt_layer(open, l),
{
    if open {
        v.push(l);
    }
    assert(final(v)@ =~= old(v)@ + opt_layer(open, l));
}

fn dialog_layers(o: Overlays) -> (r: Vec<Layer>)
    ensures
        r@ == dialog_layers_spec(o),
{
    let mut v: Vec<Layer> = Vec::new();
    push_if(&mut v, o.wizard, Layer::Wizard);
    push_if(&mut v, o.list_picker, Layer::ListPicker);
    push_if(&mut v, o.review_map_picker, Layer::ReviewMapPicker);
    push_if(&mut v, o.note_browser, Layer::NoteBrowser);
    push_if(&mut v, o.session_browser, Layer::SessionBrowser);
    push_if(&mut v, o.palette, Layer::Palette);
    let ghost pre = v@;
    if o.model_picker {
        v.push(Layer::ModelPicker);
        assert(v@ =~= pre + seq![Layer::ModelPicker]);
    } else {
        v.push(Layer::Input);
        assert(v@ =~= pre + seq![Layer::Input]);
    }
    v
}

/// The layers that are offered a key, in order.
pub fn key_layers(o: Overlays, ws: Workspace) -> (r: Vec<Layer>)
    ensures
        r@ == layers_spec(o, ws),
{
    let mut v: Vec<Layer> = Vec::new();
    push_if(&mut v, o.setup, Layer::Setup);
    push_if(&mut v, o.warmup, Layer::Warmup);
    let ghost head = v@;
    if ws != Workspace::Session && !o.wizard && !o.palette && !o.model_picker && !o.list_picker {
        v.push(Layer::Nav);
        assert(v@ =~= head + seq![Layer::Nav]);
    } else if o.review {
        v.push(Layer::Review);
        assert(v@ =~= head + seq![Layer::Review]);
    } else {
        let mut d = dialog_layers(o);
        v.append(&mut d);
    }
    v
}

} // verus!
