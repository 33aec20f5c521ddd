//! Note browser: Search → Select → Act.
//!
//! A searchable set of notes with multiple selection and batch actions:
//! - the actions (m: move, d: delete) are started inside the browser only;
//! - ids are never shown, rows show title and course;
//! - a confirmation always counts the selected notes, not the search results,
//!   and deleting more than `STRONG_CONFIRM_THRESHOLD` notes needs `DELETE`
//!   typed in.
use vstd::prelude::*;
use std::collections::HashSet;
use vstd::std_specs::iter::IteratorSpec;
use crate::input_edit::{delete_before, delete_before_spec, insert_char, insert_spec};
use crate::keys::{Key, KeyCode};
use crate::text::{chars_of, chars_eq, trim, trim_chars};

verus! {

broadcast use vstd::std_specs::hash::group_hash_axioms;

/// A note as a search lists it.
#[derive(Debug, Clone)]
pub struct NoteSummary {
    pub id: i64,
    pub course_id: Option<i64>,
    pub title: String,
    pub short_id: String,
}

/// The state of the browser.
#[derive(Debug, Clone, Copy, PartialEq, Eq, Structural)]
pub enum BrowserMode {
    /// Typing filters (the input line is the query); Enter starts selecting.
    Search,
    /// ↑↓ move, Space selects, Ctrl+A selects all results, m/d start an
    /// action, / goes back to searching.
    Select,
    /// Choosing the course to move to (↑↓ + Enter).
    PickTarget,
    /// Confirming the action (more than ten deletions need `DELETE`).
    Confirm,
}

/// The action chosen after selecting.
#[derive(Debug, Clone, Copy, PartialEq, Eq, Structural)]
pub enum BatchAction {
    Move,
    Delete,
}

pub struct NoteBrowser {
    pub mode: BrowserMode,
    /// The action chosen by m/d (PickTarget and Confirm carry it out).
    pub action: Option<BatchAction>,
    /// The current search results.
    pub results: Vec<NoteSummary>,
    /// Ids of the selected notes (the action applies to them; when empty,
    /// the row under the cursor is the implicit selection).
    pub selected: HashSet<i64>,
    /// Row of the cursor in `results`.
    pub cursor: usize,
    /// Scope: `Some(course id)` for one course, `None` for all.
    pub scope_course: Option<i64>,
    /// Name of the scope, for the header.
    pub scope_label: String,
    /// Course to move to (`None`: the "all" partition).
    pub move_target: Option<i64>,
    /// Cursor of the target list.
    pub pick_cursor: usize,
    /// Name of the move target, for the confirmation.
    pub move_target_label: String,
    /// Sequence number of the last search started: older answers are dropped.
    pub search_seq: u64,
    pub loading: bool,
}

/// Deleting more notes than this needs `DELETE` typed in.
pub const STRONG_CONFIRM_THRESHOLD: usize = 10;

pub open spec fn ascending(ids: Seq<i64>) -> bool {
    forall|a: int, b: int| 0 <= a < b < ids.len() ==> ids[a] < ids[b]
}

/// Title of the first result with `id`.
pub open spec fn title_of(results: Seq<NoteSummary>, id: i64) -> Option<Seq<char>>
    decreases results.len(),
{
    if results.len() == 0 {
        None
    } else if results[0].id == id {
        Some(results[0].title@)
    } else {
        title_of(results.drop_first(), id)
    }
}

/// The titles of those of `ids` that are among the results, in the order of `ids`.
pub open spec fn titles_of(ids: Seq<i64>, results: Seq<NoteSummary>) -> Seq<Seq<char>>
    decreases ids.len(),
{
    if ids.len() == 0 {
        Seq::empty()
    } else {
        let prev = titles_of(ids.drop_last(), results);
        match title_of(results, ids.last()) {
            Some(t) => prev.push(t),
            None => prev,
        }
    }
}

/// `ids` and `titles` are what an action applies to: the selection in
/// ascending order of id, with the titles of the listed ones; with nothing
/// selected, the row under the cursor; else nothing.
pub open spec fn targets_ok(b: &NoteBrowser, ids: Seq<i64>, titles: Seq<Seq<char>>) -> bool {
    if !b.selected@.is_empty() {
        &&& ascending(ids)
        &&& forall|x: i64| ids.contains(x) <==> b.selected@.contains(x)
        &&& titles == titles_of(ids, b.results@)
    } else if b.cursor < b.results.len() {
        &&& ids == seq![b.results@[b.cursor as int].id]
        &&& titles == seq![b.results@[b.cursor as int].title@]
    } else {
        ids.len() == 0 && titles.len() == 0
    }
}

/// Whether an action has anything to apply to.
pub open spec fn has_targets(b: &NoteBrowser) -> bool {
    !b.selected@.is_empty() || b.cursor < b.results.len()
}

/// The cursor after the results changed: on the last row at most.
pub open spec fn clamped(cursor: usize, len: nat) -> usize {
    if len == 0 {
        0
    } else if cursor < len {
        cursor
    } else {
        (len - 1) as usize
    }
}

/// `sel` with `id` added, or removed when it was there.
pub open spec fn toggled(sel: Set<i64>, id: i64) -> Set<i64> {
    if sel.contains(id) {
        sel.remove(id)
    } else {
        sel.insert(id)
    }
}

/// Space twice on the same row leaves the selection as it was.
pub proof fn law_toggle_twice_restores(sel: Set<i64>, id: i64)
    ensures
        toggled(toggled(sel, id), id) == sel,
{
    assert(toggled(toggled(sel, id), id) =~= sel);
}

pub open spec fn result_ids(results: Seq<NoteSummary>) -> Set<i64> {
    Set::new(|x: i64| exists|i: int| 0 <= i < results.len() && results[i].id == x)
}

/// Adds `n` to an ascending list without duplicates.
fn insert_ascending(v: &mut Vec<i64>, n: i64)
    requires
        ascending(old(v)@),
    ensures
        ascending(final(v)@),
        forall|x: i64| final(v)@.contains(x) <==> (old(v)@.contains(x) || x == n),
{
    let mut p: usize = 0;
    while p < v.len() && v[p] < n
        invariant
            p <= v.len(),
            v@ == old(v)@,
            forall|a: int| 0 <= a < p ==> v@[a] < n,
        decreases v.len() - p,
    {
        p = p + 1;
    }
    if p < v.len() && v[p] == n {
        return;
    }
    let ghost pre = v@;
    v.insert(p, n);
    proof {
        pre.insert_ensures(p as int, n);
        let post = v@;
        assert forall|a: int, b: int| 0 <= a < b < post.len() implies post[a] < post[b] by {
            if b > p {
                assert(post[b] == pre[b - 1]);
                if b - 1 > p {
                    assert(pre[p as int] < pre[b - 1]);
                }
                if a > p {
                    assert(post[a] == pre[a - 1]);
                }
            }
        }
        assert forall|x: i64| post.contains(x) <==> (pre.contains(x) || x == n) by {
            if post.contains(x) {
                let i = choose|i: int| 0 <= i < post.len() && post[i] == x;
                if i < p {
                    assert(pre[i] == x);
                } else if i > p {
                    assert(pre[i - 1] == x);
                }
            }
            if pre.contains(x) {
                let i = choose|i: int| 0 <= i < pre.len() && pre[i] == x;
                if i < p {
                    assert(post[i] == x);
                } else {
                    assert(post[i + 1] == x);
                }
            }
            if x == n {
                assert(post[p as int] == x);
            }
        }
    }
}

/// The title of the first of `results` with `id`.
fn find_title(results: &Vec<NoteSummary>, id: i64) -> (r: Option<String>)
    ensures
        match r {
            Some(t) => title_of(results@, id) == Some(t@),
            None => title_of(results@, id) is None,
        },
{
    let mut i: usize = 0;
    assert(results@.skip(0) =~= results@);
    while i < results.len()
        invariant
            i <= results.len(),
            title_of(results@, id) == title_of(results@.skip(i as int), id),
        decreases results.len() - i,
    {
        assert(results@.skip(i as int).drop_first() =~= results@.skip(i + 1));
        assert(results@.skip(i as int)[0] == results@[i as int]);
        if results[i].id == id {
            return Some(results[i].title.clone());
        }
        i = i + 1;
    }
    None
}

impl NoteBrowser {
    /// A browser over `scope_course`, searching, with its first search pending.
    pub fn new(scope_course: Option<i64>, scope_label: String) -> (r: Self)
        ensures
            r.mode == BrowserMode::Search,
            r.action is None,
            r.results@.len() == 0,
            r.selected@.is_empty(),
            r.cursor == 0,
            r.scope_course == scope_course,
            r.scope_label@ == scope_label@,
            r.move_target is None,
            r.pick_cursor == 0,
            r.move_target_label@.len() == 0,
            r.search_seq == 0,
            r.loading,
    {
        NoteBrowser {
            mode: BrowserMode::Search,
            action: None,
            results: Vec::new(),
            selected: HashSet::new(),
            cursor: 0,
            scope_course,
            scope_label,
            move_target: None,
            pick_cursor: 0,
            move_target_label: String::new(),
            search_seq: 0,
            loading: true,
        }
    }

    /// The sequence number of a new search (answers to older ones are dropped).
    pub fn next_search_seq(&mut self) -> (r: u64)
        requires
            old(self).search_seq < u64::MAX,
        ensures
            r == old(self).search_seq + 1,
            *final(self) == (NoteBrowser { search_seq: r, ..*old(self) }),
    {
        self.search_seq = self.search_seq + 1;
        self.search_seq
    }

    /// How many notes are selected.
    pub fn selected_count(&self) -> (r: usize)
        ensures
            r == self.selected@.len(),
    {
        self.selected.len()
    }

    /// What an action applies to: the selection, ascending by id, with the
    /// titles of the listed ones; with nothing selected, the row under the
    /// cursor (the one-note shortcut).
    pub fn action_targets(&self) -> (r: (Vec<i64>, Vec<String>))
        ensures
            targets_ok(self, r.0@, r.1@.map_values(|t: String| t@)),
            r.0@.len() > 0 <==> has_targets(self),
    {
        if !self.selected.is_empty() {
            let mut ids: Vec<i64> = Vec::new();
            let ghost ks = vstd::std_specs::hash::spec_hash_keys_iter(&self.selected).remaining();
            assert(ks.unref().to_set() == self.selected@);
            assert forall|y: i64| self.selected@.contains(y) <==> exists|k: int|
                0 <= k < ks.len() && *ks[k] == y by {
                if self.selected@.contains(y) {
                    assert(ks.unref().contains(y));
                    let k = choose|k: int| 0 <= k < ks.unref().len() && ks.unref()[k] == y;
                    assert(*ks[k] == y);
                }
                if exists|k: int| 0 <= k < ks.len() && *ks[k] == y {
                    let k = choose|k: int| 0 <= k < ks.len() && *ks[k] == y;
                    assert(ks.unref()[k] == y);
                    assert(ks.unref().contains(y));
                }
            }
            for x in it: self.selected.iter()
                invariant
                    it.seq() == ks,
                    ascending(ids@),
                    forall|y: i64|
                        ids@.contains(y) <==> exists|k: int|
                            0 <= k < it.index() && *it.seq()[k] == y,
                    forall|y: i64|
                        self.selected@.contains(y) <==> exists|k: int|
                            0 <= k < ks.len() && *ks[k] == y,
            {
                let ghost idx = it.index();
                let ghost v0 = ids@;
                insert_ascending(&mut ids, *x);
                assert forall|y: i64| ids@.contains(y) <==> exists|k: int|
                    0 <= k < idx + 1 && *it.seq()[k] == y by {
                    if exists|k: int| 0 <= k < idx + 1 && *it.seq()[k] == y {
                        let k = choose|k: int| 0 <= k < idx + 1 && *it.seq()[k] == y;
                        if k < idx {
                            assert(v0.contains(y));
                        }
                    }
                }
            }
            let mut titles: Vec<String> = Vec::new();
            let mut i: usize = 0;
            while i < ids.len()
                invariant
                    i <= ids.len(),
                    titles@.map_values(|t: String| t@) == titles_of(
                        ids@.take(i as int),
                        self.results@,
                    ),
                decreases ids.len() - i,
            {
                assert(ids@.take(i + 1).drop_last() =~= ids@.take(i as int));
                let ghost t0 = titles@;
                match find_title(&self.results, ids[i]) {
                    Some(t) => {
                        titles.push(t);
                        assert(titles@.map_values(|t: String| t@) =~= t0.map_values(
                            |t: String| t@,
                        ).push(titles@[t0.len() as int]@));
                    },
                    None => {},
                }
                i = i + 1;
            }
            assert(ids@.take(ids.len() as int) =~= ids@);
            proof {
                let y = self.selected@.choose();
                assert(self.selected@.contains(y));
                assert(ids@.contains(y));
            }
            (ids, titles)
        } else if self.cursor < self.results.len() {
            let n = &self.results[self.cursor];
            let mut ids: Vec<i64> = Vec::new();
            ids.push(n.id);
            let mut titles: Vec<String> = Vec::new();
            titles.push(n.title.clone());
            assert(titles@.map_values(|t: String| t@) =~= seq![n.title@]);
            assert(ids@ =~= seq![n.id]);
            (ids, titles)
        } else {
            let titles: Vec<String> = Vec::new();
            assert(titles@.map_values(|t: String| t@) =~= Seq::<Seq<char>>::empty());
            (Vec::new(), titles)
        }
    }

    /// Keeps the cursor on a row when the results shrink.
    pub fn clamp_cursor(&mut self)
        ensures
            *final(self) == (NoteBrowser {
                cursor: clamped(old(self).cursor, old(self).results@.len()),
                ..*old(self)
            }),
    {
        if self.results.len() == 0 {
            self.cursor = 0;
        } else if self.cursor >= self.results.len() {
            self.cursor = self.results.len() - 1;
        }
    }

    /// Space: selects the row under the cursor, or unselects it.
    pub fn toggle_current(&mut self)
        ensures
            old(self).cursor < old(self).results.len() ==> {
                let id = old(self).results@[old(self).cursor as int].id;
                &&& final(self).selected@ == toggled(old(self).selected@, id)
                &&& *final(self) == (NoteBrowser { selected: final(self).selected, ..*old(self) })
            },
            old(self).cursor >= old(self).results.len() ==> *final(self) == *old(self),
    {
        if self.cursor < self.results.len() {
            let id = self.results[self.cursor].id;
            if !self.selected.remove(&id) {
                self.selected.insert(id);
            }
        }
    }

    /// Ctrl+A: selects every result.
    pub fn select_all_results(&mut self)
        ensures
            final(self).selected@ == old(self).selected@.union(result_ids(old(self).results@)),
            *final(self) == (NoteBrowser { selected: final(self).selected, ..*old(self) }),
    {
        let mut i: usize = 0;
        while i < self.results.len()
            invariant
                i <= self.results.len(),
                self.results@ == old(self).results@,
                self.selected@ == old(self).selected@.union(
                    result_ids(self.results@.take(i as int)),
                ),
                *self == (NoteBrowser { selected: self.selected, ..*old(self) }),
            decreases self.results.len() - i,
        {
            let id = self.results[i].id;
            self.selected.insert(id);
            i = i + 1;
            proof {
                let r = self.results@;
                let p = r.take(i - 1);
                let q = r.take(i as int);
                assert forall|x: i64| result_ids(q).contains(x) <==> (result_ids(p).contains(x)
                    || x == id) by {
                    if result_ids(q).contains(x) {
                        let k = choose|k: int| 0 <= k < q.len() && #[trigger] q[k].id == x;
                        if k < i - 1 {
                            assert(p[k].id == x);
                        }
                    }
                    if result_ids(p).contains(x) {
                        let k = choose|k: int| 0 <= k < p.len() && #[trigger] p[k].id == x;
                        assert(q[k].id == x);
                    }
                    if x == id {
                        assert(q[i - 1].id == x);
                    }
                }
                assert(self.selected@ =~= old(self).selected@.union(result_ids(q)));
            }
        }
        assert(self.results@.take(self.results.len() as int) =~= self.results@);
    }
}

/// What a key in the browser asks of the application.
pub enum BrowserOutcome {
    /// Not the browser's key: it goes on to the input line (the query).
    Pass,
    /// Consumed; the browser state changed as stated.
    Handled,
    /// ↑/↓ while searching: the preview scrolls.
    ScrollPreview { down: bool },
    /// The browser closes; the input line saved when it opened comes back.
    Closed,
    /// A search for the (cleared) input starts, with this sequence number.
    Search(u64),
    /// More than `STRONG_CONFIRM_THRESHOLD` deletions without `DELETE` typed in.
    NeedStrongConfirm,
    /// Confirmed: the browser closes and the action runs.
    Run(BatchRequest),
}

/// A confirmed batch action.
pub struct BatchRequest {
    pub action: BatchAction,
    /// The notes it applies to, ascending.
    pub ids: Vec<i64>,
    /// For a move: the course (`None`: the "all" partition).
    pub move_target: Option<i64>,
    pub target_label: String,
    pub scope_label: String,
}

/// Name of the "all" partition in the target list.
pub const ALL_TARGET_LABEL: &'static str = "all（全部）";

/// The word that confirms a large deletion.
pub const DELETE_WORD: &'static str = "DELETE";

/// Length of the target list: the "all" partition, then the courses.
pub open spec fn pick_len(courses: Seq<(i64, String)>) -> int {
    courses.len() + 1int
}

/// Target `k` of the list: (id, label); the "all" partition has id -1.
pub open spec fn pick_item(courses: Seq<(i64, String)>, k: int) -> (i64, Seq<char>) {
    if k == 0 {
        (-1i64, ALL_TARGET_LABEL@)
    } else {
        (courses[k - 1].0, courses[k - 1].1@)
    }
}

/// A move target id: negative ids stand for the "all" partition.
pub open spec fn target_of(id: i64) -> Option<i64> {
    if id < 0 {
        None
    } else {
        Some(id)
    }
}

/// Whether a confirmation of `action` on `count` notes needs `DELETE` that
/// `typed` does not hold.
pub open spec fn lacks_strong_confirm(action: BatchAction, count: nat, typed: Seq<char>) -> bool {
    action == BatchAction::Delete && count > STRONG_CONFIRM_THRESHOLD && trim(typed) != DELETE_WORD@
}

/// A move never needs the DELETE word, whatever the number of notes and the
/// typed text; a deletion needs it exactly when it concerns more than
/// `STRONG_CONFIRM_THRESHOLD` notes and the trimmed text is not `DELETE`.
pub proof fn law_only_large_deletions_need_the_word(count: nat, typed: Seq<char>)
    ensures
        !lacks_strong_confirm(BatchAction::Move, count, typed),
        lacks_strong_confirm(BatchAction::Delete, count, typed) <==> (count > 10 && trim(typed) != "DELETE"@),
{
}

impl NoteBrowser {
    /// Starts a search: a new sequence number, and loading.
    pub fn begin_search(&mut self) -> (r: u64)
        requires
            old(self).search_seq < u64::MAX,
        ensures
            r == old(self).search_seq + 1,
            *final(self) == (NoteBrowser { search_seq: r, loading: true, ..*old(self) }),
    {
        let seq = self.next_search_seq();
        self.loading = true;
        seq
    }

    /// Takes the answer to search `seq`: an answer to an older search is
    /// dropped; rows replace the results; a failure keeps them and gives the
    /// message to show.  Either way loading ends and the cursor stays on a row.
    pub fn on_results(&mut self, seq: u64, result: Result<Vec<NoteSummary>, String>) -> (r: Option<String>)
        ensures
            seq != old(self).search_seq ==> r is None && *final(self) == *old(self),
            seq == old(self).search_seq ==> match result {
                Ok(rows) => {
                    &&& r is None
                    &&& *final(self) == (NoteBrowser {
                        results: rows,
                        loading: false,
                        cursor: clamped(old(self).cursor, rows@.len()),
                        ..*old(self)
                    })
                },
                Err(e) => {
                    &&& r matches Some(m) && m@ == "搜索笔记失败: "@ + e@
                    &&& *final(self) == (NoteBrowser {
                        loading: false,
                        cursor: clamped(old(self).cursor, old(self).results@.len()),
                        ..*old(self)
                    })
                },
            },
    {
        if seq != self.search_seq {
            return None;
        }
        match result {
            Ok(rows) => {
                self.results = rows;
                self.loading = false;
                self.clamp_cursor();
                None
            },
            Err(e) => {
                self.loading = false;
                self.clamp_cursor();
                let mut m = String::new();
                m.push_str("搜索笔记失败: ");
                m.push_str(e.as_str());
                proof {
                    reveal_strlit("搜索笔记失败: ");
                }
                Some(m)
            },
        }
    }

    /// A key in the browser.  The input line is shared: it holds the query
    /// while searching and the confirmation word on the confirmation page.
    /// `courses` lists the courses a move can go to, after "all".
    pub fn handle_key(
        &mut self,
        input: &mut String,
        cursor_pos: &mut usize,
        key: Key,
        courses: &[(i64, String)],
    ) -> (r: BrowserOutcome)
        requires
            old(self).search_seq < u64::MAX,
            old(self).cursor < usize::MAX,
            old(self).pick_cursor < usize::MAX,
        ensures
            // What a key leaves alone.
            (r is Pass || r is ScrollPreview || r is Closed || r is NeedStrongConfirm) ==> {
                &&& *final(self) == *old(self)
                &&& final(input)@ == old(input)@
                &&& *final(cursor_pos) == *old(cursor_pos)
            },
            !key.press ==> r is Pass,
            // Only a deletion ever asks for the DELETE word; a confirmed
            // move runs whatever the number of notes and the typed text.
            r is NeedStrongConfirm ==> old(self).action == Some(BatchAction::Delete),
            key.press && old(self).mode == BrowserMode::Confirm && key.code == KeyCode::Enter
                && old(self).action == Some(BatchAction::Move) ==> r is Run,
            key.press && old(self).mode == BrowserMode::Search ==> match key.code {
                KeyCode::Up => r == (BrowserOutcome::ScrollPreview { down: false }),
                KeyCode::Down => r == (BrowserOutcome::ScrollPreview { down: true }),
                KeyCode::Esc => r is Closed,
                KeyCode::Enter => {
                    &&& r is Handled
                    &&& *final(self) == (NoteBrowser {
                        mode: BrowserMode::Select,
                        cursor: clamped(old(self).cursor, old(self).results@.len()),
                        ..*old(self)
                    })
                    &&& final(input)@ == old(input)@
                    &&& *final(cursor_pos) == *old(cursor_pos)
                },
                _ => r is Pass,
            },
            key.press && old(self).mode == BrowserMode::Select ==> {
                &&& !(r is Pass || r is ScrollPreview || r is Closed || r is NeedStrongConfirm
                    || r is Run)
                &&& match key.code {
                    KeyCode::Esc => {
                        &&& r == BrowserOutcome::Search((old(self).search_seq + 1) as u64)
                        &&& final(self).selected@.is_empty()
                        &&& *final(self) == (NoteBrowser {
                            mode: BrowserMode::Search,
                            selected: final(self).selected,
                            search_seq: (old(self).search_seq + 1) as u64,
                            loading: true,
                            ..*old(self)
                        })
                        &&& final(input)@.len() == 0
                        &&& *final(cursor_pos) == 0
                    },
                    KeyCode::Up => {
                        &&& *final(self) == (NoteBrowser {
                            cursor: if old(self).cursor > 0 {
                                (old(self).cursor - 1) as usize
                            } else {
                                0
                            },
                            ..*old(self)
                        })
                        &&& final(input)@ == old(input)@
                        &&& *final(cursor_pos) == *old(cursor_pos)
                    },
                    KeyCode::Down => {
                        &&& *final(self) == (NoteBrowser {
                            cursor: if old(self).results.len() == 0 {
                                old(self).cursor
                            } else {
                                clamped((old(self).cursor + 1) as usize, old(self).results@.len())
                            },
                            ..*old(self)
                        })
                        &&& final(input)@ == old(input)@
                        &&& *final(cursor_pos) == *old(cursor_pos)
                    },
                    KeyCode::Char(' ') => {
                        &&& (old(self).cursor < old(self).results.len() ==> {
                            let id = old(self).results@[old(self).cursor as int].id;
                            final(self).selected@ == (if old(self).selected@.contains(id) {
                                old(self).selected@.remove(id)
                            } else {
                                old(self).selected@.insert(id)
                            })
                        })
                        &&& (old(self).cursor >= old(self).results.len() ==> final(self).selected@
                            == old(self).selected@)
                        &&& *final(self) == (NoteBrowser {
                            selected: final(self).selected,
                            ..*old(self)
                        })
                        &&& final(input)@ == old(input)@
                        &&& *final(cursor_pos) == *old(cursor_pos)
                    },
                    KeyCode::Char(c) => {
                        if (c == 'a' || c == 'A') && key.ctrl {
                            &&& final(self).selected@ == old(self).selected@.union(
                                result_ids(old(self).results@),
                            )
                            &&& *final(self) == (NoteBrowser {
                                selected: final(self).selected,
                                ..*old(self)
                            })
                            &&& final(input)@ == old(input)@
                            &&& *final(cursor_pos) == *old(cursor_pos)
                        } else if c == '/' {
                            &&& r == BrowserOutcome::Search((old(self).search_seq + 1) as u64)
                            &&& *final(self) == (NoteBrowser {
                                mode: BrowserMode::Search,
                                search_seq: (old(self).search_seq + 1) as u64,
                                loading: true,
                                ..*old(self)
                            })
                            &&& final(input)@.len() == 0
                            &&& *final(cursor_pos) == 0
                        } else if (c == 'm' || c == 'd') && has_targets(old(self)) {
                            &&& r is Handled
                            &&& *final(self) == (if c == 'm' {
                                NoteBrowser {
                                    action: Some(BatchAction::Move),
                                    mode: BrowserMode::PickTarget,
                                    move_target: None,
                                    ..*old(self)
                                }
                            } else {
                                NoteBrowser {
                                    action: Some(BatchAction::Delete),
                                    mode: BrowserMode::Confirm,
                                    ..*old(self)
                                }
                            })
                            &&& final(input)@.len() == 0
                            &&& *final(cursor_pos) == 0
                        } else {
                            &&& r is Handled
                            &&& *final(self) == *old(self)
                            &&& final(input)@ == old(input)@
                            &&& *final(cursor_pos) == *old(cursor_pos)
                        }
                    },
                    KeyCode::Enter => {
                        &&& r == BrowserOutcome::Search((old(self).search_seq + 1) as u64)
                        &&& *final(self) == (NoteBrowser {
                            mode: BrowserMode::Search,
                            search_seq: (old(self).search_seq + 1) as u64,
                            loading: true,
                            ..*old(self)
                        })
                        &&& final(input)@.len() == 0
                        &&& *final(cursor_pos) == 0
                    },
                    _ => {
                        &&& r is Handled
                        &&& *final(self) == *old(self)
                        &&& final(input)@ == old(input)@
                        &&& *final(cursor_pos) == *old(cursor_pos)
                    },
                }
            },
            key.press && old(self).mode == BrowserMode::PickTarget ==> {
                &&& r is Handled
                &&& match key.code {
                    KeyCode::Esc => {
                        &&& *final(self) == (NoteBrowser {
                            mode: BrowserMode::Select,
                            action: None,
                            ..*old(self)
                        })
                        &&& final(input)@.len() == 0
                        &&& *final(cursor_pos) == *old(cursor_pos)
                    },
                    KeyCode::Up => {
                        &&& *final(self) == (NoteBrowser {
                            pick_cursor: if old(self).pick_cursor > 0 {
                                (old(self).pick_cursor - 1) as usize
                            } else {
                                0
                            },
                            ..*old(self)
                        })
                        &&& final(input)@ == old(input)@
                        &&& *final(cursor_pos) == *old(cursor_pos)
                    },
                    KeyCode::Down => {
                        &&& *final(self) == (NoteBrowser {
                            pick_cursor: clamped(
                                (old(self).pick_cursor + 1) as usize,
                                pick_len(courses@) as nat,
                            ),
                            ..*old(self)
                        })
                        &&& final(input)@ == old(input)@
                        &&& *final(cursor_pos) == *old(cursor_pos)
                    },
                    KeyCode::Enter => if old(self).pick_cursor < pick_len(courses@) {
                        let item = pick_item(courses@, old(self).pick_cursor as int);
                        &&& *final(self) == (NoteBrowser {
                            move_target: target_of(item.0),
                            move_target_label: final(self).move_target_label,
                            mode: BrowserMode::Confirm,
                            ..*old(self)
                        })
                        &&& final(self).move_target_label@ == item.1
                        &&& final(input)@.len() == 0
                        &&& *final(cursor_pos) == 0
                    } else {
                        &&& *final(self) == *old(self)
                        &&& final(input)@ == old(input)@
                        &&& *final(cursor_pos) == *old(cursor_pos)
                    },
                    _ => {
                        &&& *final(self) == *old(self)
                        &&& final(input)@ == old(input)@
                        &&& *final(cursor_pos) == *old(cursor_pos)
                    },
                }
            },
            key.press && old(self).mode == BrowserMode::Confirm ==> match key.code {
                KeyCode::Esc => {
                    &&& r is Handled
                    &&& *final(self) == (NoteBrowser {
                        mode: BrowserMode::Select,
                        action: None,
                        ..*old(self)
                    })
                    &&& final(input)@.len() == 0
                    &&& *final(cursor_pos) == *old(cursor_pos)
                },
                KeyCode::Enter => match old(self).action {
                    None => r is Handled && *final(self) == *old(self)
                        && final(input)@ == old(input)@ && *final(cursor_pos) == *old(cursor_pos),
                    Some(action) => {
                        &&& (r is NeedStrongConfirm || r is Run)
                        &&& r is NeedStrongConfirm <==> exists|ids: Seq<i64>, ts: Seq<Seq<char>>|
                            targets_ok(old(self), ids, ts) && lacks_strong_confirm(
                                action,
                                ids.len(),
                                old(input)@,
                            )
                        &&& r matches BrowserOutcome::Run(req) ==> {
                            &&& req.action == action
                            &&& exists|ts: Seq<Seq<char>>| targets_ok(old(self), req.ids@, ts)
                            &&& !lacks_strong_confirm(action, req.ids@.len(), old(input)@)
                            &&& req.move_target == old(self).move_target
                            &&& req.target_label@ == old(self).move_target_label@
                            &&& req.scope_label@ == old(self).scope_label@
                            &&& *final(self) == *old(self)
                            &&& final(input)@.len() == 0
                            &&& *final(cursor_pos) == 0
                        }
                    },
                },
                KeyCode::Char(c) => {
                    &&& r is Handled
                    &&& *final(self) == *old(self)
                    &&& if key.ctrl {
                        final(input)@ == old(input)@ && *final(cursor_pos) == *old(cursor_pos)
                    } else {
                        (final(input)@, *final(cursor_pos) as int) == insert_spec(
                            old(input)@,
                            *old(cursor_pos) as int,
                            c,
                        )
                    }
                },
                KeyCode::Backspace => {
                    &&& r is Handled
                    &&& *final(self) == *old(self)
                    &&& (final(input)@, *final(cursor_pos) as int) == delete_before_spec(
                        old(input)@,
                        *old(cursor_pos) as int,
                    )
                },
                _ => {
                    &&& r is Handled
                    &&& *final(self) == *old(self)
                    &&& final(input)@ == old(input)@
                    &&& *final(cursor_pos) == *old(cursor_pos)
                },
            },
    {
        if !key.press {
            return BrowserOutcome::Pass;
        }
        match self.mode {
            BrowserMode::Search => match key.code {
                KeyCode::Up => BrowserOutcome::ScrollPreview { down: false },
                KeyCode::Down => BrowserOutcome::ScrollPreview { down: true },
                KeyCode::Esc => BrowserOutcome::Closed,
                KeyCode::Enter => {
                    self.mode = BrowserMode::Select;
                    self.clamp_cursor();
                    BrowserOutcome::Handled
                },
                _ => BrowserOutcome::Pass,
            },
            BrowserMode::Select => match key.code {
                KeyCode::Esc => {
                    self.mode = BrowserMode::Search;
                    self.selected.clear();
                    *input = String::new();
                    *cursor_pos = 0;
                    BrowserOutcome::Search(self.begin_search())
                },
                KeyCode::Up => {
                    if self.cursor > 0 {
                        self.cursor = self.cursor - 1;
                    }
                    BrowserOutcome::Handled
                },
                KeyCode::Down => {
                    if self.results.len() > 0 {
                        let next = self.cursor + 1;
                        self.cursor = if next < self.results.len() {
                            next
                        } else {
                            self.results.len() - 1
                        };
                    }
                    BrowserOutcome::Handled
                },
                KeyCode::Char(' ') => {
                    self.toggle_current();
                    BrowserOutcome::Handled
                },
                KeyCode::Char(c) if (c == 'a' || c == 'A') && key.ctrl => {
                    self.select_all_results();
                    BrowserOutcome::Handled
                },
                KeyCode::Char('/') | KeyCode::Enter => {
                    self.mode = BrowserMode::Search;
                    *input = String::new();
                    *cursor_pos = 0;
                    BrowserOutcome::Search(self.begin_search())
                },
                KeyCode::Char('m') => {
                    if !self.selected.is_empty() || self.cursor < self.results.len() {
                        self.action = Some(BatchAction::Move);
                        self.mode = BrowserMode::PickTarget;
                        self.move_target = None;
                        *input = String::new();
                        *cursor_pos = 0;
                    }
                    BrowserOutcome::Handled
                },
                KeyCode::Char('d') => {
                    if !self.selected.is_empty() || self.cursor < self.results.len() {
                        self.action = Some(BatchAction::Delete);
                        self.mode = BrowserMode::Confirm;
                        *input = String::new();
                        *cursor_pos = 0;
                    }
                    BrowserOutcome::Handled
                },
                _ => BrowserOutcome::Handled,
            },
            BrowserMode::PickTarget => match key.code {
                KeyCode::Esc => {
                    self.mode = BrowserMode::Select;
                    self.action = None;
                    *input = String::new();
                    BrowserOutcome::Handled
                },
                KeyCode::Up => {
                    if self.pick_cursor > 0 {
                        self.pick_cursor = self.pick_cursor - 1;
                    }
                    BrowserOutcome::Handled
                },
                KeyCode::Down => {
                    let next = self.pick_cursor + 1;
                    self.pick_cursor = if next <= courses.len() {
                        next
                    } else {
                        courses.len()
                    };
                    BrowserOutcome::Handled
                },
                KeyCode::Enter => {
                    let k = self.pick_cursor;
                    if k > courses.len() {
                        return BrowserOutcome::Handled;
                    }
                    let (id, label) = if k == 0 {
                        (-1i64, ALL_TARGET_LABEL.to_owned())
                    } else {
                        (courses[k - 1].0, courses[k - 1].1.clone())
                    };
                    self.move_target = if id < 0 {
                        None
                    } else {
                        Some(id)
                    };
                    self.move_target_label = label;
                    self.mode = BrowserMode::Confirm;
                    *input = String::new();
                    *cursor_pos = 0;
                    BrowserOutcome::Handled
                },
                _ => BrowserOutcome::Handled,
            },
            BrowserMode::Confirm => match key.code {
                KeyCode::Esc => {
                    self.mode = BrowserMode::Select;
                    self.action = None;
                    *input = String::new();
                    BrowserOutcome::Handled
                },
                KeyCode::Enter => self.confirm(input, cursor_pos),
                KeyCode::Char(c) => {
                    if !key.ctrl {
                        *cursor_pos = insert_char(input, *cursor_pos, c);
                    }
                    BrowserOutcome::Handled
                },
                KeyCode::Backspace => {
                    *cursor_pos = delete_before(input, *cursor_pos);
                    BrowserOutcome::Handled
                },
                _ => BrowserOutcome::Handled,
            },
        }
    }

    /// Enter on the confirmation page.
    fn confirm(&self, input: &mut String, cursor_pos: &mut usize) -> (r: BrowserOutcome)
        ensures
            r is NeedStrongConfirm ==> self.action == Some(BatchAction::Delete),
            self.action == Some(BatchAction::Move) ==> r is Run,
            match self.action {
                None => r is Handled && final(input)@ == old(input)@ && *final(cursor_pos)
                    == *old(cursor_pos),
                Some(action) => {
                    &&& (r is NeedStrongConfirm || r is Run)
                    &&& r is NeedStrongConfirm <==> exists|ids: Seq<i64>, ts: Seq<Seq<char>>|
                        targets_ok(self, ids, ts) && lacks_strong_confirm(
                            action,
                            ids.len(),
                            old(input)@,
                        )
                    &&& r is NeedStrongConfirm ==> final(input)@ == old(input)@
                        && *final(cursor_pos) == *old(cursor_pos)
                    &&& r matches BrowserOutcome::Run(req) ==> {
                        &&& req.action == action
                        &&& exists|ts: Seq<Seq<char>>| targets_ok(self, req.ids@, ts)
                        &&& !lacks_strong_confirm(action, req.ids@.len(), old(input)@)
                        &&& req.move_target == self.move_target
                        &&& req.target_label@ == self.move_target_label@
                        &&& req.scope_label@ == self.scope_label@
                        &&& final(input)@.len() == 0
                        &&& *final(cursor_pos) == 0
                    }
                },
            },
    {
        let action = match self.action {
            Some(a) => a,
            None => {
                return BrowserOutcome::Handled;
            },
        };
        let (ids, titles) = self.action_targets();
        let ghost ts = titles@.map_values(|t: String| t@);
        let count = ids.len();
        let typed = trim_chars(chars_of(input.as_str()).as_slice());
        let word = chars_of(DELETE_WORD);
        let lacks = action == BatchAction::Delete && count > STRONG_CONFIRM_THRESHOLD && !chars_eq(
            typed.as_slice(),
            word.as_slice(),
        );
        proof {
            assert(lacks == lacks_strong_confirm(action, ids@.len(), input@));
            assert forall|ids2: Seq<i64>, ts2: Seq<Seq<char>>| targets_ok(self, ids2, ts2) implies ids2.len()
                == ids@.len() by {
                lemma_targets_len(self, ids@, ts, ids2, ts2);
            }
        }
        if lacks {
            return BrowserOutcome::NeedStrongConfirm;
        }
        *input = String::new();
        *cursor_pos = 0;
        BrowserOutcome::Run(
            BatchRequest {
                action,
                ids,
                move_target: self.move_target,
                target_label: self.move_target_label.clone(),
                scope_label: self.scope_label.clone(),
            },
        )
    }
}

/// Two lists of targets of one browser have the same length.
proof fn lemma_targets_len(
    b: &NoteBrowser,
    ids1: Seq<i64>,
    ts1: Seq<Seq<char>>,
    ids2: Seq<i64>,
    ts2: Seq<Seq<char>>,
)
    requires
        targets_ok(b, ids1, ts1),
        targets_ok(b, ids2, ts2),
    ensures
        ids1.len() == ids2.len(),
{
    if !b.selected@.is_empty() {
        lemma_ascending_same_set(ids1, ids2);
    }
}

/// Two ascending lists with the same elements are equal.
proof fn lemma_ascending_same_set(a: Seq<i64>, b: Seq<i64>)
    requires
        ascending(a),
        ascending(b),
        forall|x: i64| a.contains(x) <==> b.contains(x),
    ensures
        a == b,
    decreases a.len() + b.len(),
{
    if a.len() == 0 {
        if b.len() > 0 {
            assert(b.contains(b[0]));
        }
    } else if b.len() == 0 {
        assert(a.contains(a[0]));
    } else {
        // The largest elements agree.
        let la = a.last();
        let lb = b.last();
        assert(a.contains(la));
        assert(b.contains(lb));
        let ia = choose|i: int| 0 <= i < a.len() && a[i] == lb;
        let ib = choose|i: int| 0 <= i < b.len() && b[i] == la;
        assert(la == lb) by {
            if ia < a.len() - 1 {
                assert(a[ia] < la);
            }
            if ib < b.len() - 1 {
                assert(b[ib] < lb);
            }
        }
        let a2 = a.drop_last();
        let b2 = b.drop_last();
        assert forall|x: i64| a2.contains(x) <==> b2.contains(x) by {
            if a2.contains(x) {
                let i = choose|i: int| 0 <= i < a2.len() && a2[i] == x;
                assert(a[i] < la);
                assert(b.contains(x));
                let j = choose|j: int| 0 <= j < b.len() && b[j] == x;
                assert(j != b.len() - 1);
                assert(b2[j] == x);
            }
            if b2.contains(x) {
                let i = choose|i: int| 0 <= i < b2.len() && b2[i] == x;
                assert(b[i] < lb);
                assert(a.contains(x));
                let j = choose|j: int| 0 <= j < a.len() && a[j] == x;
                assert(j != a.len() - 1);
                assert(a2[j] == x);
            }
        }
        lemma_ascending_same_set(a2, b2);
        assert(a =~= a2.push(la));
        assert(b =~= b2.push(lb));
    }
}

} // verus!
