//! Keys of the session browser: search, pick a session, rename or delete it.
use vstd::prelude::*;
use crate::input_edit::{delete_before, delete_before_spec, insert_char, insert_spec};
use crate::keys::{Key, KeyCode};
use crate::navigation::{restore_spec, title_or_untitled, InputLine, InputLineView, SessionMeta, UNTITLED};
use crate::note_browser::clamped;
use crate::palette::{signed_decimal, signed_decimal_string};
use crate::text::{chars_of, trim, trim_str};

verus! {

/// What the session browser is doing.
#[derive(Debug, Clone, Copy, PartialEq, Eq, Structural)]
pub enum SessionBrowserMode {
    /// Typing the search words (the chat input is the search field).
    Search,
    /// Moving over the results.
    Select,
    /// Typing the new title of the session under the cursor.
    Rename,
    /// Asking whether to delete the session under the cursor.
    ConfirmDelete,
}

/// What the keys read and change of the browser.
#[derive(Debug, Clone)]
pub struct SessionBrowserState {
    pub mode: SessionBrowserMode,
    pub cursor: usize,
    pub n_results: usize,
    /// The search words saved when renaming began; Esc puts them back.
    pub rename_old: String,
}

/// What the browser asks of its owner after a key.
#[derive(Debug, Clone, Copy, PartialEq, Eq, Structural)]
pub enum SessionKeyOutcome {
    /// Not a browser key.
    Pass,
    /// Consumed; nothing else to do.
    Handled,
    /// The browser closes (the chat text was restored).
    Close,
    /// Results are being picked: keep the cursor on a row.
    EnterSelect,
    /// Scroll the preview by three lines.
    ScrollPreview { down: bool },
    /// Searching again: run the search for the (cleared) input.
    Search,
    /// The cursor moved: keep it visible.
    CursorMoved,
    /// Open the session under the cursor.
    Open,
    BeginRename,
    BeginDelete,
    ConfirmRename,
    ConfirmDelete,
    /// The rename text changed.
    Edited,
}

/// The browser's key handling: the outcome, the browser state and the
/// input line after the key.
pub open spec fn session_key_spec(
    mode: SessionBrowserMode,
    cursor: usize,
    n: usize,
    rename_old: Seq<char>,
    line: InputLineView,
    key: Key,
) -> (SessionKeyOutcome, SessionBrowserMode, usize, InputLineView) {
    let same = (SessionKeyOutcome::Handled, mode, cursor, line);
    if !key.press {
        (SessionKeyOutcome::Pass, mode, cursor, line)
    } else {
        match mode {
            SessionBrowserMode::Search => match key.code {
                KeyCode::Esc => (SessionKeyOutcome::Close, mode, cursor, restore_spec(line)),
                KeyCode::Enter => (SessionKeyOutcome::EnterSelect, SessionBrowserMode::Select, cursor, line),
                KeyCode::Up => (SessionKeyOutcome::ScrollPreview { down: false }, mode, cursor, line),
                KeyCode::Down => (SessionKeyOutcome::ScrollPreview { down: true }, mode, cursor, line),
                _ => (SessionKeyOutcome::Pass, mode, cursor, line),
            },
            SessionBrowserMode::Select => {
                let cleared = InputLineView { input: Seq::empty(), cursor: 0, ..line };
                match key.code {
                    KeyCode::Esc => (SessionKeyOutcome::Search, SessionBrowserMode::Search, cursor, cleared),
                    KeyCode::Up => (SessionKeyOutcome::CursorMoved, mode, if cursor > 0 {
                        (cursor - 1) as usize
                    } else {
                        0
                    }, line),
                    KeyCode::Down => if n > 0 {
                        (SessionKeyOutcome::CursorMoved, mode, if cursor + 1 < n {
                            (cursor + 1) as usize
                        } else {
                            (n - 1) as usize
                        }, line)
                    } else {
                        same
                    },
                    KeyCode::Enter => (SessionKeyOutcome::Open, mode, cursor, line),
                    KeyCode::Char(c) => if c == 'o' {
                        (SessionKeyOutcome::Open, mode, cursor, line)
                    } else if c == 'r' {
                        (SessionKeyOutcome::BeginRename, mode, cursor, line)
                    } else if c == 'd' {
                        (SessionKeyOutcome::BeginDelete, mode, cursor, line)
                    } else if c == '/' {
                        (SessionKeyOutcome::Search, SessionBrowserMode::Search, cursor, cleared)
                    } else {
                        same
                    },
                    _ => same,
                }
            },
            SessionBrowserMode::Rename => match key.code {
                KeyCode::Esc => (
                    SessionKeyOutcome::Handled,
                    SessionBrowserMode::Select,
                    cursor,
                    InputLineView { input: rename_old, cursor: rename_old.len(), ..line },
                ),
                KeyCode::Enter => (SessionKeyOutcome::ConfirmRename, mode, cursor, line),
                KeyCode::Backspace => {
                    let (s, p) = delete_before_spec(line.input, line.cursor as int);
                    (SessionKeyOutcome::Edited, mode, cursor, InputLineView { input: s, cursor: p as nat, ..line })
                },
                KeyCode::Char(c) => if key.ctrl {
                    same
                } else {
                    let (s, p) = insert_spec(line.input, line.cursor as int, c);
                    (SessionKeyOutcome::Edited, mode, cursor, InputLineView { input: s, cursor: p as nat, ..line })
                },
                _ => same,
            },
            SessionBrowserMode::ConfirmDelete => match key.code {
                KeyCode::Esc => (
                    SessionKeyOutcome::Handled,
                    SessionBrowserMode::Select,
                    cursor,
                    InputLineView { input: Seq::empty(), ..line },
                ),
                KeyCode::Enter => (SessionKeyOutcome::ConfirmDelete, mode, cursor, line),
                _ => same,
            },
        }
    }
}

impl SessionBrowserState {
    /// A key while the session browser is open.  Only Search mode lets
    /// other keys through (they edit the search words).
    pub fn handle_key(&mut self, line: &mut InputLine, key: Key) -> (r: SessionKeyOutcome)
        ensures
            ({
                let (o, m, c, l) = session_key_spec(
                    old(self).mode,
                    old(self).cursor,
                    old(self).n_results,
                    old(self).rename_old@,
                    old(line)@,
                    key,
                );
                &&& r == o
                &&& final(self).mode == m
                &&& final(self).cursor == c
                &&& final(self).n_results == old(self).n_results
                &&& final(self).rename_old@ == old(self).rename_old@
                &&& final(line)@ == l
            }),
    {
        if !key.press {
            return SessionKeyOutcome::Pass;
        }
        match self.mode {
            SessionBrowserMode::Search => match key.code {
                KeyCode::Esc => {
                    line.restore_backup();
                    SessionKeyOutcome::Close
                },
                KeyCode::Enter => {
                    self.mode = SessionBrowserMode::Select;
                    SessionKeyOutcome::EnterSelect
                },
                KeyCode::Up => SessionKeyOutcome::ScrollPreview { down: false },
                KeyCode::Down => SessionKeyOutcome::ScrollPreview { down: true },
                _ => SessionKeyOutcome::Pass,
            },
            SessionBrowserMode::Select => match key.code {
                KeyCode::Esc => {
                    self.mode = SessionBrowserMode::Search;
                    line.input = String::new();
                    line.cursor_pos = 0;
                    SessionKeyOutcome::Search
                },
                KeyCode::Up => {
                    self.cursor = self.cursor.saturating_sub(1);
                    SessionKeyOutcome::CursorMoved
                },
                KeyCode::Down => {
                    if self.n_results > 0 {
                        let last = self.n_results - 1;
                        self.cursor = if self.cursor < last {
                            self.cursor + 1
                        } else {
                            last
                        };
                        SessionKeyOutcome::CursorMoved
                    } else {
                        SessionKeyOutcome::Handled
                    }
                },
                KeyCode::Enter => SessionKeyOutcome::Open,
                KeyCode::Char(c) => {
                    if c == 'o' {
                        SessionKeyOutcome::Open
                    } else if c == 'r' {
                        SessionKeyOutcome::BeginRename
                    } else if c == 'd' {
                        SessionKeyOutcome::BeginDelete
                    } else if c == '/' {
                        self.mode = SessionBrowserMode::Search;
                        line.input = String::new();
                        line.cursor_pos = 0;
                        SessionKeyOutcome::Search
                    } else {
                        SessionKeyOutcome::Handled
                    }
                },
                _ => SessionKeyOutcome::Handled,
            },
            SessionBrowserMode::Rename => match key.code {
                KeyCode::Esc => {
                    self.mode = SessionBrowserMode::Select;
                    line.input = self.rename_old.clone();
                    line.cursor_pos = chars_of(line.input.as_str()).len();
                    SessionKeyOutcome::Handled
                },
                KeyCode::Enter => SessionKeyOutcome::ConfirmRename,
                KeyCode::Backspace => {
                    line.cursor_pos = delete_before(&mut line.input, line.cursor_pos);
                    SessionKeyOutcome::Edited
                },
                KeyCode::Char(c) => {
                    if key.ctrl {
                        SessionKeyOutcome::Handled
                    } else {
                        line.cursor_pos = insert_char(&mut line.input, line.cursor_pos, c);
                        SessionKeyOutcome::Edited
                    }
                },
                _ => SessionKeyOutcome::Handled,
            },
            SessionBrowserMode::ConfirmDelete => match key.code {
                KeyCode::Esc => {
                    self.mode = SessionBrowserMode::Select;
                    line.input = String::new();
                    SessionKeyOutcome::Handled
                },
                KeyCode::Enter => SessionKeyOutcome::ConfirmDelete,
                _ => SessionKeyOutcome::Handled,
            },
        }
    }
}

/// A session browser: the key state, the search results, and the session
/// being renamed.
#[derive(Debug, Clone)]
pub struct SessionBrowser {
    pub state: SessionBrowserState,
    pub results: Vec<SessionMeta>,
    /// Sequence number of the latest search; answers to older ones are dropped.
    pub search_seq: u64,
    pub loading: bool,
    pub rename_id: Option<i64>,
}

/// A title as the rename field shows it (empty without one).
pub open spec fn title_text(t: Option<String>) -> Seq<char> {
    match t {
        Some(x) => x@,
        None => Seq::empty(),
    }
}

/// `new` is `old` after session `id` took the title `title`: only that
/// session's title changed.
pub open spec fn renamed_row(old: SessionMeta, new: SessionMeta, id: i64, title: Seq<char>) -> bool {
    &&& new.id == old.id
    &&& new.course_id == old.course_id
    &&& new.created_at@ == old.created_at@
    &&& if old.id == id {
        new.title matches Some(x) && x@ == title
    } else {
        title_text(new.title) == title_text(old.title) && (new.title is Some <==> old.title is Some)
    }
}

impl SessionBrowser {
    /// The key state counts the results.
    pub open spec fn wf(&self) -> bool {
        self.state.n_results == self.results@.len()
    }

    /// The session under the cursor.
    pub open spec fn current_spec(&self) -> Option<SessionMeta> {
        if self.state.cursor < self.results@.len() {
            Some(self.results@[self.state.cursor as int])
        } else {
            None
        }
    }

    /// The id of the session under the cursor (the one that Enter opens).
    pub fn current_id(&self) -> (r: Option<i64>)
        ensures
            r == (match self.current_spec() {
                Some(m) => Some(m.id),
                None => None,
            }),
    {
        if self.state.cursor < self.results.len() {
            Some(self.results[self.state.cursor].id)
        } else {
            None
        }
    }

    /// Starts a search: a new sequence number, and loading.
    pub fn begin_search(&mut self) -> (r: u64)
        requires
            old(self).search_seq < u64::MAX,
        ensures
            r == old(self).search_seq + 1,
            *final(self) == (SessionBrowser { search_seq: r, loading: true, ..*old(self) }),
    {
        self.search_seq = self.search_seq + 1;
        self.loading = true;
        self.search_seq
    }

    /// Takes the answer to search `seq`: an answer to an older search is
    /// dropped; rows replace the results; a failure keeps them and gives
    /// the message to show.  Either way loading ends and the cursor stays on
    /// a row.
    pub fn on_results(&mut self, seq: u64, result: Result<Vec<SessionMeta>, String>) -> (r: Option<String>)
        ensures
            seq != old(self).search_seq ==> r is None && *final(self) == *old(self),
            seq == old(self).search_seq ==> match result {
                Ok(rows) => {
                    &&& r is None
                    &&& *final(self) == (SessionBrowser {
                        results: rows,
                        loading: false,
                        state: SessionBrowserState {
                            n_results: rows@.len() as usize,
                            cursor: clamped(old(self).state.cursor, rows@.len()),
                            ..old(self).state
                        },
                        ..*old(self)
                    })
                },
                Err(e) => {
                    &&& r matches Some(m) && m@ == "搜索会话失败: "@ + e@
                    &&& *final(self) == (SessionBrowser {
                        loading: false,
                        state: SessionBrowserState {
                            n_results: old(self).results@.len() as usize,
                            cursor: clamped(old(self).state.cursor, old(self).results@.len()),
                            ..old(self).state
                        },
                        ..*old(self)
                    })
                },
            },
    {
        if seq != self.search_seq {
            return None;
        }
        let msg = match result {
            Ok(rows) => {
                self.results = rows;
                None
            },
            Err(e) => {
                let mut m = "搜索会话失败: ".to_string();
                m.push_str(e.as_str());
                Some(m)
            },
        };
        self.loading = false;
        let n = self.results.len();
        let c = self.state.cursor;
        let cursor = if n == 0 {
            0
        } else if c < n {
            c
        } else {
            n - 1
        };
        self.state.n_results = n;
        self.state.cursor = cursor;
        msg
    }

    /// `r`: renaming the session under the cursor begins; the search words
    /// are kept to come back on Esc, and the line holds the old title to
    /// edit.  Without a session under the cursor nothing changes.
    pub fn begin_rename(&mut self, line: &mut InputLine) -> (r: bool)
        ensures
            match old(self).current_spec() {
                Some(m) => {
                    let t = title_text(m.title);
                    &&& r
                    &&& final(self).rename_id == Some(m.id)
                    &&& final(self).state.rename_old@ == old(line).input@
                    &&& final(self).state.mode == SessionBrowserMode::Rename
                    &&& final(self).state.cursor == old(self).state.cursor
                    &&& final(self).state.n_results == old(self).state.n_results
                    &&& final(self).results == old(self).results
                    &&& final(self).search_seq == old(self).search_seq
                    &&& final(self).loading == old(self).loading
                    &&& final(line)@ == InputLineView { input: t, cursor: t.len(), ..old(line)@ }
                },
                None => !r && *final(self) == *old(self) && *final(line) == *old(line),
            },
    {
        if self.state.cursor >= self.results.len() {
            return false;
        }
        let k = self.state.cursor;
        let id = self.results[k].id;
        let title = match &self.results[k].title {
            Some(t) => t.clone(),
            None => String::new(),
        };
        let words = line.input.clone();
        self.rename_id = Some(id);
        self.state.mode = SessionBrowserMode::Rename;
        self.state.rename_old = words;
        let n = chars_of(title.as_str()).len();
        line.input = title;
        line.cursor_pos = n;
        true
    }

    /// Enter while renaming: the trimmed line becomes the session's title
    /// in the results at once (the store is written afterwards), the
    /// browser goes back to picking, and the line is cleared.  Gives the
    /// session and the title to store; nothing happens without a session
    /// being renamed or with a blank title.
    pub fn confirm_rename(&mut self, line: &mut InputLine) -> (r: Option<(i64, String)>)
        ensures
            ({
                let t = trim(old(line).input@);
                match old(self).rename_id {
                    Some(id) if t.len() > 0 => {
                        &&& r matches Some(p) && p.0 == id && p.1@ == t
                        &&& final(self).results@.len() == old(self).results@.len()
                        &&& forall|k: int|
                            0 <= k < old(self).results@.len() ==> renamed_row(
                                #[trigger] old(self).results@[k],
                                final(self).results@[k],
                                id,
                                t,
                            )
                        &&& final(self).state == (SessionBrowserState {
                            mode: SessionBrowserMode::Select,
                            ..old(self).state
                        })
                        &&& final(self).rename_id == old(self).rename_id
                        &&& final(self).search_seq == old(self).search_seq
                        &&& final(self).loading == old(self).loading
                        &&& final(line)@ == InputLineView { input: Seq::empty(), cursor: 0, ..old(line)@ }
                    },
                    _ => r is None && *final(self) == *old(self) && *final(line) == *old(line),
                }
            }),
    {
        let id = match self.rename_id {
            Some(id) => id,
            None => {
                return None;
            },
        };
        let t = trim_str(line.input.as_str());
        if chars_of(t.as_str()).len() == 0 {
            return None;
        }
        let mut rows: Vec<SessionMeta> = Vec::new();
        let mut k: usize = 0;
        while k < self.results.len()
            invariant
                k <= self.results@.len(),
                rows@.len() == k,
                forall|j: int| 0 <= j < k ==> renamed_row(#[trigger] self.results@[j], rows@[j], id, t@),
            decreases self.results.len() - k,
        {
            let row = &self.results[k];
            let title = if row.id == id {
                Some(t.clone())
            } else {
                match &row.title {
                    Some(x) => Some(x.clone()),
                    None => None,
                }
            };
            rows.push(SessionMeta { id: row.id, title, course_id: row.course_id, created_at: row.created_at.clone() });
            k = k + 1;
        }
        self.results = rows;
        self.state.mode = SessionBrowserMode::Select;
        line.input = String::new();
        line.cursor_pos = 0;
        Some((id, t))
    }

    /// `d`: asking to delete the session under the cursor.  The session open
    /// in the chat (`current_session`) cannot be deleted: the message says
    /// so (also when neither exists).  Otherwise, with a session under the
    /// cursor, the browser asks for confirmation and the line is cleared.
    pub fn begin_delete(&mut self, line: &mut InputLine, current_session: Option<i64>) -> (r: Option<String>)
        ensures
            ({
                let cur = match old(self).current_spec() {
                    Some(m) => Some(m.id),
                    None => None,
                };
                if current_session == cur {
                    &&& r matches Some(m) && m@ == "这是当前打开的会话，请先切换到其他会话再删除"@
                    &&& *final(self) == *old(self)
                    &&& *final(line) == *old(line)
                } else if cur is Some {
                    &&& r is None
                    &&& *final(self) == (SessionBrowser {
                        state: SessionBrowserState { mode: SessionBrowserMode::ConfirmDelete, ..old(self).state },
                        ..*old(self)
                    })
                    &&& final(line)@ == InputLineView { input: Seq::empty(), cursor: 0, ..old(line)@ }
                } else {
                    r is None && *final(self) == *old(self) && *final(line) == *old(line)
                }
            }),
    {
        let cur = self.current_id();
        if current_session == cur {
            return Some("这是当前打开的会话，请先切换到其他会话再删除".to_string());
        }
        if cur.is_some() {
            self.state.mode = SessionBrowserMode::ConfirmDelete;
            line.input = String::new();
            line.cursor_pos = 0;
        }
        None
    }

    /// Enter on the delete question: the session to delete and its title
    /// for the report (`(未命名)` without one).
    pub fn delete_target(&self) -> (r: Option<(i64, String)>)
        ensures
            match self.current_spec() {
                Some(m) => r matches Some(p) && p.0 == m.id && p.1@ == title_or_untitled(m.title),
                None => r is None,
            },
    {
        if self.state.cursor >= self.results.len() {
            return None;
        }
        let m = &self.results[self.state.cursor];
        let title = match &m.title {
            Some(t) => t.clone(),
            None => UNTITLED.to_string(),
        };
        Some((m.id, title))
    }
}

/// How storing the new title of session `id` went, as a browser report.
pub fn rename_report(id: i64, result: Result<bool, String>) -> (r: Result<String, String>)
    ensures
        match result {
            Ok(true) => r matches Ok(m) && m@ == "会话 #"@ + signed_decimal(id as int) + " 已重命名"@,
            _ => r matches Err(m) && m@ == "重命名失败：会话 #"@ + signed_decimal(id as int) + " 可能不存在，重新搜索可恢复显示"@,
        },
{
    let n = signed_decimal_string(id);
    match result {
        Ok(true) => {
            let mut m = "会话 #".to_string();
            m.push_str(n.as_str());
            m.push_str(" 已重命名");
            Ok(m)
        },
        _ => {
            let mut m = "重命名失败：会话 #".to_string();
            m.push_str(n.as_str());
            m.push_str(" 可能不存在，重新搜索可恢复显示");
            Err(m)
        },
    }
}

/// How deleting session `id` (titled `title`) went, as a browser report.
pub fn delete_report(id: i64, title: &str, result: Result<bool, String>) -> (r: Result<String, String>)
    ensures
        match result {
            Ok(true) => r matches Ok(m) && m@ == "已删除会话 #"@ + signed_decimal(id as int) + " "@ + title@
                + "（聊天记录一并清除）"@,
            Ok(false) => r matches Err(m) && m@ == "会话 #"@ + signed_decimal(id as int) + " 不存在"@,
            Err(e) => r matches Err(m) && m@ == "删除失败: "@ + e@,
        },
{
    let n = signed_decimal_string(id);
    match result {
        Ok(true) => {
            let mut m = "已删除会话 #".to_string();
            m.push_str(n.as_str());
            m.push_str(" ");
            m.push_str(title);
            m.push_str("（聊天记录一并清除）");
            Ok(m)
        },
        Ok(false) => {
            let mut m = "会话 #".to_string();
            m.push_str(n.as_str());
            m.push_str(" 不存在");
            Err(m)
        },
        Err(e) => {
            let mut m = "删除失败: ".to_string();
            m.push_str(e.as_str());
            Err(m)
        },
    }
}

} // verus!
