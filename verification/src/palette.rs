//! Command palette, list picker and learning-map picker data.
use vstd::prelude::*;
use crate::keys::{Key, KeyCode};
use crate::navigation::Workspace;
use crate::text::{
    chars_eq, chars_of, contains_chars, contains_sub, decimal, occurs_at, decimal_string, join, join_chars,
    lowercase_of, str_eq, string_of, to_lowercase, views, vviews,
};
use crate::review_map::{counts_of, status_mark, status_of, ConceptNode, OutlineSection, ReviewMap};
use crate::wizard::WizardKind;
use PaletteAction as A;
use PaletteGroup as G;
use PaletteScope as S;

verus! {

/// The indices `0..n` (ascending) at which `keep` holds.
pub open spec fn filter_indices(n: nat, keep: spec_fn(int) -> bool) -> Seq<usize>
    decreases n,
{
    if n == 0 {
        Seq::empty()
    } else {
        let prev = filter_indices((n - 1) as nat, keep);
        if keep(n - 1) {
            prev.push((n - 1) as usize)
        } else {
            prev
        }
    }
}

/// `filter_indices` only reads `keep` below `n`.
proof fn lemma_filter_same(n: nat, a: spec_fn(int) -> bool, b: spec_fn(int) -> bool)
    requires
        forall|k: int| 0 <= k < n ==> #[trigger] a(k) == b(k),
    ensures
        filter_indices(n, a) == filter_indices(n, b),
    decreases n,
{
    if n > 0 {
        lemma_filter_same((n - 1) as nat, a, b);
    }
}

/// The indices that `filter_indices` keeps: below `n`, kept, ascending,
/// and every kept index below `n` among them.
proof fn lemma_filter_indices(n: nat, keep: spec_fn(int) -> bool)
    requires
        n <= usize::MAX,
    ensures
        forall|i: int|
            0 <= i < filter_indices(n, keep).len() ==> (#[trigger] filter_indices(n, keep)[i] as int) < n && keep(
                filter_indices(n, keep)[i] as int,
            ),
        forall|i: int, j: int|
            0 <= i < j < filter_indices(n, keep).len() ==> #[trigger] filter_indices(n, keep)[i]
                < #[trigger] filter_indices(n, keep)[j],
        forall|k: int| 0 <= k < n && #[trigger] keep(k) ==> filter_indices(n, keep).contains(k as usize),
    decreases n,
{
    if n > 0 {
        let m = (n - 1) as nat;
        lemma_filter_indices(m, keep);
        let prev = filter_indices(m, keep);
        if keep(n - 1) {
            let r = prev.push((n - 1) as usize);
            assert(r[prev.len() as int] == (n - 1) as usize);
            assert forall|k: int| 0 <= k < n && #[trigger] keep(k) implies r.contains(k as usize) by {
                if k < m {
                    let i = choose|i: int| 0 <= i < prev.len() && prev[i] == k as usize;
                    assert(r[i] == k as usize);
                } else {
                    assert(r[prev.len() as int] == k as usize);
                }
            }
        }
    }
}

/// A row passes the (already lower-cased) query `q`: `q` is empty, or one of
/// the row's (already lower-cased) texts contains it.
pub open spec fn row_matches(fields: Seq<Seq<char>>, q: Seq<char>) -> bool {
    q.len() == 0 || exists|j: int| 0 <= j < fields.len() && contains_sub(#[trigger] fields[j], q)
}

/// The rows (each a list of lower-cased texts) that pass the lower-cased
/// query `q`, ascending.
pub fn matching_rows(rows: &[Vec<String>], q: &str) -> (r: Vec<usize>)
    ensures
        r@ == filter_indices(rows@.len(), |k: int| row_matches(views(rows@[k]@), q@)),
{
    let f = chars_of(q);
    let mut keep: Vec<usize> = Vec::new();
    let mut k: usize = 0;
    while k < rows.len()
        invariant
            k <= rows.len(),
            f@ == q@,
            keep@ == filter_indices(k as nat, |j: int| row_matches(views(rows@[j]@), q@)),
        decreases rows.len() - k,
    {
        let row = &rows[k];
        let mut m = f.len() == 0;
        let mut j: usize = 0;
        while j < row.len() && !m
            invariant
                j <= row.len(),
                f@ == q@,
                m == (q@.len() == 0 || exists|t: int| 0 <= t < j && contains_sub(#[trigger] views(row@)[t], q@)),
            decreases row.len() - j,
        {
            let c = contains_chars(&chars_of(row[j].as_str()), &f);
            proof {
                assert(views(row@)[j as int] == row@[j as int]@);
            }
            if c {
                m = true;
            }
            j = j + 1;
        }
        proof {
            assert(m == row_matches(views(row@), q@));
        }
        if m {
            keep.push(k);
        }
        k = k + 1;
    }
    keep
}

/// Palette group (rendered as a separator; order is display order).
#[derive(Clone, Copy, PartialEq, Eq, Debug, Structural)]
pub enum PaletteGroup {
    Study,
    Course,
    Session,
    Settings,
}

pub open spec fn group_label(g: PaletteGroup) -> Seq<char> {
    match g {
        PaletteGroup::Study => "学习"@,
        PaletteGroup::Course => "课程"@,
        PaletteGroup::Session => "会话"@,
        PaletteGroup::Settings => "设置"@,
    }
}

impl PaletteGroup {
    pub fn label(&self) -> (r: &'static str)
        ensures
            r@ == group_label(*self),
    {
        match self {
            PaletteGroup::Study => "学习",
            PaletteGroup::Course => "课程",
            PaletteGroup::Session => "会话",
            PaletteGroup::Settings => "设置",
        }
    }
}

/// Scope of a command: decides the scope tag shown in the palette.
#[derive(Clone, Copy, PartialEq, Eq, Debug, Structural)]
pub enum PaletteScope {
    /// Available everywhere (model, budget, help).
    Global,
    /// Bound to the current course.
    CurrentCourse,
    /// Bound to the current session.
    CurrentSession,
}

/// Which list a picker action opens.
#[derive(Clone, Copy, PartialEq, Eq, Debug, Structural)]
pub enum PickKind {
    /// Switch partition (`all` and every course).
    CourseSwitch,
    /// Delete a course.
    CourseDelete,
}

/// What Enter does on a palette item (Tab always fills the command text).
#[derive(Clone, Copy, Debug)]
pub enum PaletteAction {
    /// Command without arguments, run directly.
    Run,
    /// Opens the model picker.
    OpenModel,
    /// Opens the session browser.
    OpenSessions,
    /// Shows the budget.
    BudgetInfo,
    /// Resets the accumulated cost.
    BudgetReset,
    /// Argument wizard of `/review`.
    WizardReview,
    /// Argument wizard of `/import`.
    WizardImport,
    /// One-step text wizard: (dialog title, input prompt, wizard kind).
    Prompt { title: &'static str, prompt: &'static str, kind: WizardKind },
    /// List picker.
    Pick(PickKind),
}

/// `PaletteAction` with its texts taken as character sequences.
pub enum ActionView {
    Run,
    OpenModel,
    OpenSessions,
    BudgetInfo,
    BudgetReset,
    WizardReview,
    WizardImport,
    Prompt(Seq<char>, Seq<char>, WizardKind),
    Pick(PickKind),
}

impl View for PaletteAction {
    type V = ActionView;

    open spec fn view(&self) -> ActionView {
        match self {
            PaletteAction::Run => ActionView::Run,
            PaletteAction::OpenModel => ActionView::OpenModel,
            PaletteAction::OpenSessions => ActionView::OpenSessions,
            PaletteAction::BudgetInfo => ActionView::BudgetInfo,
            PaletteAction::BudgetReset => ActionView::BudgetReset,
            PaletteAction::WizardReview => ActionView::WizardReview,
            PaletteAction::WizardImport => ActionView::WizardImport,
            PaletteAction::Prompt { title, prompt, kind } => ActionView::Prompt(
                title@,
                prompt@,
                *kind,
            ),
            PaletteAction::Pick(k) => ActionView::Pick(*k),
        }
    }
}

/// A palette entry: the behaviour is bound to the entry itself.
pub struct PaletteItem {
    /// Human readable action name.
    pub label: &'static str,
    /// CLI command text (Tab fills it in).
    pub command: &'static str,
    pub desc: &'static str,
    pub action: PaletteAction,
    pub group: PaletteGroup,
    pub scope: PaletteScope,
}

pub struct ItemView {
    pub label: Seq<char>,
    pub command: Seq<char>,
    pub desc: Seq<char>,
    pub action: ActionView,
    pub group: PaletteGroup,
    pub scope: PaletteScope,
}

impl View for PaletteItem {
    type V = ItemView;

    open spec fn view(&self) -> ItemView {
        ItemView {
            label: self.label@,
            command: self.command@,
            desc: self.desc@,
            action: self.action@,
            group: self.group,
            scope: self.scope,
        }
    }
}

pub open spec fn item_spec(
    label: Seq<char>,
    command: Seq<char>,
    desc: Seq<char>,
    action: ActionView,
    group: PaletteGroup,
    scope: PaletteScope,
) -> ItemView {
    ItemView { label, command, desc, action, group, scope }
}

/// The full command table, in display order (writing order = group order).
pub open spec fn palette_table() -> Seq<ItemView> {
    seq![
        item_spec("New Conversation"@, "/new"@, "当前课程开新会话"@, ActionView::Run, PaletteGroup::Study, PaletteScope::CurrentCourse),
        item_spec("Review"@, "/review"@, "出题复习（掌握度低优先）"@, ActionView::WizardReview, PaletteGroup::Study, PaletteScope::CurrentCourse),
        item_spec("Review Map"@, "/review-map"@, "复习地图：选知识点开复习"@, ActionView::Run, PaletteGroup::Study, PaletteScope::CurrentCourse),
        item_spec("Outline"@, "/outline"@, "生成课程知识大纲"@, ActionView::Run, PaletteGroup::Study, PaletteScope::CurrentCourse),
        item_spec("Outline → Export"@, "/outline --export"@, "生成大纲并导出 Markdown"@, ActionView::Run, PaletteGroup::Study, PaletteScope::CurrentCourse),
        item_spec("Materials"@, "/notes"@, "浏览与管理当前课程笔记"@, ActionView::Run, PaletteGroup::Study, PaletteScope::CurrentCourse),
        item_spec("Switch Course"@, "/course"@, "切换课程"@, ActionView::Pick(PickKind::CourseSwitch), PaletteGroup::Course, PaletteScope::Global),
        item_spec("New Course"@, "/course -new"@, "新建课程"@, ActionView::Prompt("新建课程"@, "课程名"@, WizardKind::CreateCourse), PaletteGroup::Course, PaletteScope::Global),
        item_spec("Rename Course"@, "/rename-course"@, "重命名当前课程"@, ActionView::Prompt("重命名课程"@, "新课程名"@, WizardKind::RenameCourse), PaletteGroup::Course, PaletteScope::CurrentCourse),
        item_spec("Delete Course"@, "/course -delete"@, "删除课程（笔记回落 all 区）"@, ActionView::Pick(PickKind::CourseDelete), PaletteGroup::Course, PaletteScope::CurrentCourse),
        item_spec("Import Materials"@, "/import"@, "批量导入 md/pdf/pptx 到当前课程"@, ActionView::WizardImport, PaletteGroup::Course, PaletteScope::CurrentCourse),
        item_spec("Recent Sessions"@, "/sessions"@, "查看当前课程学习历史"@, ActionView::OpenSessions, PaletteGroup::Session, PaletteScope::CurrentCourse),
        item_spec("Rename Session"@, "/rename"@, "重命名当前会话"@, ActionView::Prompt("重命名会话"@, "新标题"@, WizardKind::RenameSession), PaletteGroup::Session, PaletteScope::CurrentSession),
        item_spec("Export Conversation"@, "/export"@, "导出当前会话为 JSON"@, ActionView::Run, PaletteGroup::Session, PaletteScope::CurrentSession),
        item_spec("Load Conversation"@, "/load"@, "加载导出的会话 JSON"@, ActionView::Prompt("加载会话"@, "JSON 文件路径"@, WizardKind::LoadFile), PaletteGroup::Session, PaletteScope::Global),
        item_spec("Model"@, "/model"@, "切换模型 / 配置角色（fast/balanced/reasoning）"@, ActionView::OpenModel, PaletteGroup::Settings, PaletteScope::Global),
        item_spec("Budget"@, "/budget"@, "查看/设置预算（累计/上限/剩余）"@, ActionView::BudgetInfo, PaletteGroup::Settings, PaletteScope::Global),
        item_spec("Budget → Set"@, "/budget"@, "设置花费上限（元）"@, ActionView::Prompt("设置预算上限"@, "金额（元）"@, WizardKind::BudgetLimit), PaletteGroup::Settings, PaletteScope::Global),
        item_spec("Budget → Reset"@, "/budget reset"@, "重置累计花费"@, ActionView::BudgetReset, PaletteGroup::Settings, PaletteScope::Global),
    ]
}

pub open spec fn items_view(items: Seq<PaletteItem>) -> Seq<ItemView> {
    items.map_values(|i: PaletteItem| i@)
}

/// Whether an item stays in the palette of `workspace` (before the
/// no-course rule): Home keeps only Continue (the recent sessions and a
/// new conversation), course creation/switching/import and settings, and
/// nothing that acts on the current session or course; Course hides
/// session-bound items; Session hides course creation and deletion.
pub open spec fn context_keeps(i: ItemView, workspace: Workspace) -> bool {
    match workspace {
        Workspace::Home => match i.group {
            PaletteGroup::Course => i.label == "New Course"@ || i.label == "Switch Course"@
                || i.label == "Import Materials"@,
            PaletteGroup::Settings => true,
            PaletteGroup::Session => i.label == "Recent Sessions"@,
            PaletteGroup::Study => i.label == "New Conversation"@,
        },
        Workspace::Course => i.scope != PaletteScope::CurrentSession,
        Workspace::Session => !(i.group == PaletteGroup::Course && (i.label == "New Course"@
            || i.label == "Delete Course"@)),
    }
}

/// Whether an item stays visible for `workspace`, with or without courses.
pub open spec fn context_visible(i: ItemView, workspace: Workspace, has_courses: bool) -> bool {
    context_keeps(i, workspace) && (has_courses || i.scope != PaletteScope::CurrentCourse)
}

/// Whether an item matches the lower-cased filter `f`.
pub open spec fn filter_matches(i: ItemView, f: Seq<char>) -> bool {
    f.len() == 0 || contains_sub(lowercase_of(i.label), f) || contains_sub(
        lowercase_of(i.command),
        f,
    ) || contains_sub(lowercase_of(i.desc), f)
}

/// The palette of a workspace without courses is its palette with courses
/// less the course-bound items: both list table indices in ascending
/// order, and an index is kept without courses exactly when it is kept
/// with courses and its item is not bound to the current course.  In the
/// Session workspace neither keeps course creation or deletion.
pub proof fn law_palette_without_courses(items: Seq<ItemView>, w: Workspace)
    requires
        items.len() <= usize::MAX,
    ensures
        ({
            let with = filter_indices(items.len(), |k: int| context_visible(items[k], w, true));
            let without = filter_indices(items.len(), |k: int| context_visible(items[k], w, false));
            &&& forall|i: int| 0 <= i < without.len() ==> (#[trigger] without[i] as int) < items.len()
            &&& forall|i: int, j: int| 0 <= i < j < without.len() ==> #[trigger] without[i] < #[trigger] without[j]
            &&& forall|k: int|
                0 <= k < items.len() ==> (without.contains(k as usize) <==> (with.contains(k as usize)
                    && #[trigger] items[k].scope != PaletteScope::CurrentCourse))
            &&& w == Workspace::Session ==> forall|i: int|
                0 <= i < with.len() ==> !(#[trigger] items[with[i] as int].group == PaletteGroup::Course && (
                items[with[i] as int].label == "New Course"@ || items[with[i] as int].label
                == "Delete Course"@))
        }),
{
    let a = |k: int| context_visible(items[k], w, true);
    let b = |k: int| context_visible(items[k], w, false);
    let n = items.len();
    lemma_filter_indices(n, a);
    lemma_filter_indices(n, b);
    let with = filter_indices(n, a);
    let without = filter_indices(n, b);
    assert forall|k: int| 0 <= k < n implies (without.contains(k as usize) <==> (with.contains(k as usize)
        && #[trigger] items[k].scope != PaletteScope::CurrentCourse)) by {
        if without.contains(k as usize) {
            let i = choose|i: int| 0 <= i < without.len() && without[i] == k as usize;
            assert(b(without[i] as int));
            assert(a(k));
        }
        if with.contains(k as usize) && items[k].scope != PaletteScope::CurrentCourse {
            let i = choose|i: int| 0 <= i < with.len() && with[i] == k as usize;
            assert(a(with[i] as int));
            assert(b(k));
        }
    }
    assert forall|i: int| 0 <= i < with.len() implies w == Workspace::Session ==> !(
        #[trigger] items[with[i] as int].group == PaletteGroup::Course && (items[with[i] as int].label == "New Course"@
        || items[with[i] as int].label == "Delete Course"@)) by {
        assert(a(with[i] as int));
    }
}

/// The items that the typed filter `f` keeps, as a predicate on indices.
pub open spec fn filter_keeps(items: Seq<ItemView>, f: Seq<char>) -> spec_fn(int) -> bool {
    |k: int| filter_matches(items[k], f)
}

/// Whether item `i` shows some text that contains the lower-cased filter
/// `f`: its label, its command or its description (an empty filter is in
/// every text).
pub open spec fn shows_text(i: ItemView, f: Seq<char>) -> bool {
    ||| f.len() == 0
    ||| contains_sub(lowercase_of(i.label), f)
    ||| contains_sub(lowercase_of(i.command), f)
    ||| contains_sub(lowercase_of(i.desc), f)
}

/// The typed filter keeps exactly the items that show a text containing
/// it (a description match alone is enough), in table order.
pub proof fn law_palette_filter_keeps_any_matching_text(items: Seq<ItemView>, f: Seq<char>)
    requires
        items.len() <= usize::MAX,
    ensures
        forall|i: int, j: int|
            0 <= i < j < filter_indices(items.len(), filter_keeps(items, f)).len() ==> #[trigger] filter_indices(
                items.len(),
                filter_keeps(items, f),
            )[i] < #[trigger] filter_indices(items.len(), filter_keeps(items, f))[j],
        forall|i: int|
            0 <= i < filter_indices(items.len(), filter_keeps(items, f)).len() ==> {
                let k = #[trigger] filter_indices(items.len(), filter_keeps(items, f))[i];
                k < items.len() && shows_text(items[k as int], f)
            },
        forall|k: int|
            0 <= k < items.len() && shows_text(#[trigger] items[k], f) ==> filter_indices(
                items.len(),
                filter_keeps(items, f),
            ).contains(k as usize),
{
    let keep = filter_keeps(items, f);
    lemma_filter_indices(items.len(), keep);
    let r = filter_indices(items.len(), keep);
    assert forall|i: int| 0 <= i < r.len() implies (#[trigger] r[i] as int) < items.len() && shows_text(items[r[i] as int], f) by {
        assert(keep(r[i] as int));
    }
    assert forall|k: int| 0 <= k < items.len() && shows_text(#[trigger] items[k], f) implies r.contains(k as usize) by {
        assert(keep(k));
    }
}

/// Command palette (Ctrl+K): every action, grouped.  The filter text is the
/// chat input itself (shared buffer, no separate state).
pub struct CommandPalette {
    pub items: Vec<PaletteItem>,
    /// Indices of the items that pass the filter, in group order.
    pub filtered: Vec<usize>,
    pub selected: usize,
    /// First row shown when the list is taller than the viewport.
    pub scroll: usize,
}

fn item(
    label: &'static str,
    command: &'static str,
    desc: &'static str,
    action: PaletteAction,
    group: PaletteGroup,
    scope: PaletteScope,
) -> (r: PaletteItem)
    ensures
        r@ == item_spec(label@, command@, desc@, action@, group, scope),
{
    PaletteItem { label, command, desc, action, group, scope }
}

impl CommandPalette {
    /// The full command table.
    pub fn all_items() -> (r: Vec<PaletteItem>)
        ensures
            items_view(r@) == palette_table(),
    {
        let mut v: Vec<PaletteItem> = Vec::new();
        v.push(item("New Conversation", "/new", "当前课程开新会话", A::Run, G::Study, S::CurrentCourse));
        v.push(item("Review", "/review", "出题复习（掌握度低优先）", A::WizardReview, G::Study, S::CurrentCourse));
        v.push(item("Review Map", "/review-map", "复习地图：选知识点开复习", A::Run, G::Study, S::CurrentCourse));
        v.push(item("Outline", "/outline", "生成课程知识大纲", A::Run, G::Study, S::CurrentCourse));
        v.push(item("Outline → Export", "/outline --export", "生成大纲并导出 Markdown", A::Run, G::Study, S::CurrentCourse));
        v.push(item("Materials", "/notes", "浏览与管理当前课程笔记", A::Run, G::Study, S::CurrentCourse));
        v.push(item("Switch Course", "/course", "切换课程", A::Pick(PickKind::CourseSwitch), G::Course, S::Global));
        v.push(item("New Course", "/course -new", "新建课程", A::Prompt { title: "新建课程", prompt: "课程名", kind: WizardKind::CreateCourse }, G::Course, S::Global));
        v.push(item("Rename Course", "/rename-course", "重命名当前课程", A::Prompt { title: "重命名课程", prompt: "新课程名", kind: WizardKind::RenameCourse }, G::Course, S::CurrentCourse));
        v.push(item("Delete Course", "/course -delete", "删除课程（笔记回落 all 区）", A::Pick(PickKind::CourseDelete), G::Course, S::CurrentCourse));
        v.push(item("Import Materials", "/import", "批量导入 md/pdf/pptx 到当前课程", A::WizardImport, G::Course, S::CurrentCourse));
        v.push(item("Recent Sessions", "/sessions", "查看当前课程学习历史", A::OpenSessions, G::Session, S::CurrentCourse));
        v.push(item("Rename Session", "/rename", "重命名当前会话", A::Prompt { title: "重命名会话", prompt: "新标题", kind: WizardKind::RenameSession }, G::Session, S::CurrentSession));
        v.push(item("Export Conversation", "/export", "导出当前会话为 JSON", A::Run, G::Session, S::CurrentSession));
        v.push(item("Load Conversation", "/load", "加载导出的会话 JSON", A::Prompt { title: "加载会话", prompt: "JSON 文件路径", kind: WizardKind::LoadFile }, G::Session, S::Global));
        v.push(item("Model", "/model", "切换模型 / 配置角色（fast/balanced/reasoning）", A::OpenModel, G::Settings, S::Global));
        v.push(item("Budget", "/budget", "查看/设置预算（累计/上限/剩余）", A::BudgetInfo, G::Settings, S::Global));
        v.push(item("Budget → Set", "/budget", "设置花费上限（元）", A::Prompt { title: "设置预算上限", prompt: "金额（元）", kind: WizardKind::BudgetLimit }, G::Settings, S::Global));
        v.push(item("Budget → Reset", "/budget reset", "重置累计花费", A::BudgetReset, G::Settings, S::Global));
        assert(items_view(v@) =~= palette_table());
        v
    }

    /// A palette showing every item, first row selected.
    pub fn new() -> (r: Self)
        ensures
            items_view(r.items@) == palette_table(),
            r.filtered@ == filter_indices(r.items@.len(), |i: int| true),
            r.selected == 0,
            r.scroll == 0,
    {
        let items = Self::all_items();
        let mut filtered: Vec<usize> = Vec::new();
        let mut i: usize = 0;
        while i < items.len()
            invariant
                i <= items.len(),
                filtered@ == filter_indices(i as nat, |i: int| true),
            decreases items.len() - i,
        {
            filtered.push(i);
            i = i + 1;
        }
        CommandPalette { items, filtered, selected: 0, scroll: 0 }
    }

    /// Context-aware filtering: drops what does not apply to the current
    /// workspace, and every course-bound item when there is no course.
    pub fn apply_context(&mut self, workspace: Workspace, has_courses: bool)
        ensures
            final(self).items@ == old(self).items@,
            final(self).filtered@ == filter_indices(
                old(self).items@.len(),
                |k: int| context_visible(old(self).items@[k]@, workspace, has_courses),
            ),
            final(self).selected == 0,
            final(self).scroll == 0,
    {
        let nc = chars_of("New Course");
        let sc = chars_of("Switch Course");
        let im = chars_of("Import Materials");
        let nv = chars_of("New Conversation");
        let dc = chars_of("Delete Course");
        let rs = chars_of("Recent Sessions");
        let mut keep: Vec<usize> = Vec::new();
        let mut k: usize = 0;
        while k < self.items.len()
            invariant
                k <= self.items.len(),
                self.items@ == old(self).items@,
                nc@ == "New Course"@,
                sc@ == "Switch Course"@,
                im@ == "Import Materials"@,
                nv@ == "New Conversation"@,
                dc@ == "Delete Course"@,
                rs@ == "Recent Sessions"@,
                keep@ == filter_indices(
                    k as nat,
                    |j: int| context_visible(old(self).items@[j]@, workspace, has_courses),
                ),
            decreases self.items.len() - k,
        {
            let it = &self.items[k];
            let label = chars_of(it.label);
            let kept = match workspace {
                Workspace::Home => match it.group {
                    PaletteGroup::Course => chars_eq(&label, &nc) || chars_eq(&label, &sc)
                        || chars_eq(&label, &im),
                    PaletteGroup::Settings => true,
                    PaletteGroup::Session => chars_eq(&label, &rs),
                    PaletteGroup::Study => chars_eq(&label, &nv),
                },
                Workspace::Course => it.scope != PaletteScope::CurrentSession,
                Workspace::Session => !(it.group == PaletteGroup::Course && (chars_eq(&label, &nc)
                    || chars_eq(&label, &dc))),
            };
            let visible = kept && (has_courses || it.scope != PaletteScope::CurrentCourse);
            if visible {
                keep.push(k);
            }
            k = k + 1;
        }
        self.filtered = keep;
        self.selected = 0;
        self.scroll = 0;
    }

    /// Filters by the chat input: an item matches when its label, command
    /// or description contains the lower-cased input (case-insensitively).
    pub fn refilter(&mut self, input: &str)
        ensures
            final(self).items@ == old(self).items@,
            final(self).filtered@ == filter_indices(
                old(self).items@.len(),
                |k: int| filter_matches(old(self).items@[k]@, lowercase_of(input@)),
            ),
            input@.len() == 0 ==> final(self).filtered@ == filter_indices(old(self).items@.len(), |k: int| true),
            forall|i: int|
                0 <= i < final(self).filtered@.len() ==> {
                    let k = #[trigger] final(self).filtered@[i];
                    k < old(self).items@.len() && shows_text(old(self).items@[k as int]@, lowercase_of(input@))
                },
            forall|k: int|
                0 <= k < old(self).items@.len() && shows_text(#[trigger] old(self).items@[k]@, lowercase_of(input@))
                    ==> final(self).filtered@.contains(k as usize),
            final(self).selected == 0,
            final(self).scroll == 0,
    {
        let q = to_lowercase(input);
        proof {
            if input@.len() == 0 {
                lemma_filter_same(
                    old(self).items@.len(),
                    |k: int| filter_matches(old(self).items@[k]@, lowercase_of(input@)),
                    |k: int| true,
                );
            }
        }
        let mut rows: Vec<Vec<String>> = Vec::new();
        let mut k: usize = 0;
        while k < self.items.len()
            invariant
                k <= self.items.len(),
                self.items@ == old(self).items@,
                rows@.len() == k,
                forall|j: int|
                    0 <= j < k ==> views(#[trigger] rows@[j]@) == seq![
                        lowercase_of(self.items@[j]@.label),
                        lowercase_of(self.items@[j]@.command),
                        lowercase_of(self.items@[j]@.desc),
                    ],
            decreases self.items.len() - k,
        {
            let it = &self.items[k];
            let mut row: Vec<String> = Vec::new();
            row.push(to_lowercase(it.label));
            row.push(to_lowercase(it.command));
            row.push(to_lowercase(it.desc));
            proof {
                assert(views(row@) =~= seq![
                    lowercase_of(self.items@[k as int]@.label),
                    lowercase_of(self.items@[k as int]@.command),
                    lowercase_of(self.items@[k as int]@.desc),
                ]);
            }
            rows.push(row);
            k = k + 1;
        }
        let keep = matching_rows(&rows, q.as_str());
        proof {
            assert forall|k: int| 0 <= k < rows@.len() implies row_matches(views(rows@[k]@), q@)
                == filter_matches(old(self).items@[k]@, lowercase_of(input@)) by {
                let fs = views(rows@[k]@);
                if exists|j: int| 0 <= j < fs.len() && contains_sub(#[trigger] fs[j], q@) {
                    let j = choose|j: int| 0 <= j < fs.len() && contains_sub(#[trigger] fs[j], q@);
                    assert(j == 0 || j == 1 || j == 2);
                }
                if contains_sub(fs[0], q@) || contains_sub(fs[1], q@) || contains_sub(fs[2], q@) {
                    if contains_sub(fs[0], q@) {
                        assert(contains_sub(fs[0], q@));
                    } else if contains_sub(fs[1], q@) {
                        assert(contains_sub(fs[1], q@));
                    } else {
                        assert(contains_sub(fs[2], q@));
                    }
                }
            }
            lemma_filter_same(
                rows@.len(),
                |j: int| row_matches(views(rows@[j]@), q@),
                |j: int| filter_matches(old(self).items@[j]@, lowercase_of(input@)),
            );
            let iv = items_view(old(self).items@);
            law_palette_filter_keeps_any_matching_text(iv, lowercase_of(input@));
            assert forall|k: int| 0 <= k < old(self).items@.len() implies #[trigger] iv[k] == old(self).items@[k]@ by {}
            lemma_filter_same(
                old(self).items@.len(),
                |j: int| filter_matches(old(self).items@[j]@, lowercase_of(input@)),
                filter_keeps(iv, lowercase_of(input@)),
            );
            assert forall|k: int|
                0 <= k < old(self).items@.len() && shows_text(#[trigger] old(self).items@[k]@, lowercase_of(input@))
                    implies keep@.contains(k as usize) by {
                assert(iv[k] == old(self).items@[k]@);
            }
        }
        self.filtered = keep;
        self.selected = 0;
        self.scroll = 0;
    }
}

/// The direct action bound to a list-picker choice.
#[derive(Clone, Debug, PartialEq, Eq, Structural)]
pub enum ListChoiceAction {
    /// Switch to the course with this id.
    SwitchCourse(i64),
    /// Delete the course with this id.
    DeleteCourse(i64),
}

pub struct ListChoice {
    /// Text shown.
    pub label: String,
    /// Full command submitted on choice (actions take precedence).
    pub command: String,
    /// Action run directly, without going through the command text.
    pub action: Option<ListChoiceAction>,
}

/// Generic list picker: one label column; Enter submits the bound command.
/// The filter is the shared input buffer; `selected` indexes the filtered list.
pub struct ListPicker {
    pub title: String,
    pub items: Vec<ListChoice>,
    pub selected: usize,
}

/// Whether `label` passes the picker filter `input`.
pub open spec fn choice_matches(label: Seq<char>, input: Seq<char>) -> bool {
    input.len() == 0 || contains_sub(lowercase_of(label), lowercase_of(input))
}

/// The entry's label contains the typed text, compared lower-cased (an
/// empty input is in every label).
pub open spec fn label_contains(c: ListChoice, input: Seq<char>) -> bool {
    input.len() == 0 || contains_sub(lowercase_of(c.label@), lowercase_of(input))
}

/// The entries a list picker shows for `input`, as a predicate on indices.
pub open spec fn label_keeps(items: Seq<ListChoice>, input: Seq<char>) -> spec_fn(int) -> bool {
    |k: int| choice_matches(items[k].label@, input)
}

/// A list picker shows exactly the entries whose label contains the typed
/// text, compared lower-cased (all of them for an empty input), in list
/// order.
pub proof fn law_list_picker_shows_matching_labels(items: Seq<ListChoice>, input: Seq<char>)
    requires
        items.len() <= usize::MAX,
    ensures
        forall|i: int, j: int|
            0 <= i < j < filter_indices(items.len(), label_keeps(items, input)).len()
                ==> #[trigger] filter_indices(items.len(), label_keeps(items, input))[i]
                < #[trigger] filter_indices(items.len(), label_keeps(items, input))[j],
        forall|i: int|
            0 <= i < filter_indices(items.len(), label_keeps(items, input)).len() ==> {
                let k = #[trigger] filter_indices(items.len(), label_keeps(items, input))[i];
                k < items.len() && label_contains(items[k as int], input)
            },
        forall|k: int|
            0 <= k < items.len() && label_contains(#[trigger] items[k], input) ==> filter_indices(items.len(), label_keeps(items, input)).contains(
                k as usize,
            ),
{
    let keep = label_keeps(items, input);
    lemma_filter_indices(items.len(), keep);
    let r = filter_indices(items.len(), keep);
    assert forall|i: int| 0 <= i < r.len() implies (#[trigger] r[i] as int) < items.len() && label_contains(items[r[i] as int], input) by {
        assert(keep(r[i] as int));
    }
    assert forall|k: int|
        0 <= k < items.len() && label_contains(#[trigger] items[k], input) implies r.contains(k as usize) by {
        assert(keep(k));
    }
}

impl ListPicker {
    /// The visible entries: all for an empty input, otherwise those whose
    /// label contains the input, case-insensitively.
    pub fn visible(&self, input: &str) -> (r: Vec<usize>)
        ensures
            r@ == filter_indices(
                self.items@.len(),
                |k: int| choice_matches(self.items@[k].label@, input@),
            ),
    {
        let n = self.items.len();
        let mut out: Vec<usize> = Vec::new();
        if input.is_empty() {
            let mut i: usize = 0;
            while i < n
                invariant
                    i <= n,
                    n == self.items@.len(),
                    input@.len() == 0,
                    out@ == filter_indices(
                        i as nat,
                        |k: int| choice_matches(self.items@[k].label@, input@),
                    ),
                decreases n - i,
            {
                out.push(i);
                i = i + 1;
            }
            return out;
        }
        let q = to_lowercase(input);
        let mut rows: Vec<Vec<String>> = Vec::new();
        let mut i: usize = 0;
        while i < n
            invariant
                i <= n,
                n == self.items@.len(),
                rows@.len() == i,
                forall|j: int| 0 <= j < i ==> views(#[trigger] rows@[j]@) == seq![lowercase_of(self.items@[j].label@)],
            decreases n - i,
        {
            let mut row: Vec<String> = Vec::new();
            row.push(to_lowercase(self.items[i].label.as_str()));
            proof {
                assert(views(row@) =~= seq![lowercase_of(self.items@[i as int].label@)]);
            }
            rows.push(row);
            i = i + 1;
        }
        let out = matching_rows(&rows, q.as_str());
        proof {
            assert forall|k: int| 0 <= k < n implies row_matches(views(rows@[k]@), q@) == choice_matches(
                self.items@[k].label@,
                input@,
            ) by {
                let fs = views(rows@[k]@);
                if q@.len() == 0 {
                    assert(occurs_at(fs[0], q@, 0)) by {
                        assert(fs[0].subrange(0, 0) =~= q@);
                    }
                    assert(contains_sub(fs[0], q@));
                }
                if exists|j: int| 0 <= j < fs.len() && contains_sub(#[trigger] fs[j], q@) {
                    let j = choose|j: int| 0 <= j < fs.len() && contains_sub(#[trigger] fs[j], q@);
                    assert(j == 0);
                }
                if contains_sub(fs[0], q@) {
                    assert(contains_sub(fs[0], q@));
                }
            }
            lemma_filter_same(
                n as nat,
                |j: int| row_matches(views(rows@[j]@), q@),
                |k: int| choice_matches(self.items@[k].label@, input@),
            );
        }
        out
    }
}

/// A row of the learning-map picker (flattened: section header rows, each
/// followed by its indented concept rows).
#[derive(Debug)]
pub enum MapRow {
    Section {
        title: String,
        /// (mastered, weak, unreviewed) in the section.
        counts: (usize, usize, usize),
        /// Concept names of the section (Enter reviews the whole section).
        concept_names: Vec<String>,
    },
    Concept {
        name: String,
        /// Status mark ✓/△/○.
        mark: char,
        attempts: usize,
        correct: usize,
    },
}

pub enum MapRowView {
    Section(Seq<char>, (usize, usize, usize), Seq<Seq<char>>),
    Concept(Seq<char>, char, usize, usize),
}

impl View for MapRow {
    type V = MapRowView;

    open spec fn view(&self) -> MapRowView {
        match self {
            MapRow::Section { title, counts, concept_names } => MapRowView::Section(
                title@,
                *counts,
                concept_names@.map_values(|n: String| n@),
            ),
            MapRow::Concept { name, mark, attempts, correct } => MapRowView::Concept(
                name@,
                *mark,
                *attempts,
                *correct,
            ),
        }
    }
}

pub open spec fn concept_row(n: ConceptNode) -> MapRowView {
    MapRowView::Concept(n.name@, status_mark(status_of(n.attempts, n.correct)), n.attempts, n.correct)
}

/// The rows of one section: its header, then one row per concept.
pub open spec fn section_rows(s: OutlineSection) -> Seq<MapRowView> {
    seq![
        MapRowView::Section(
            s.title@,
            counts_of(s.nodes@),
            s.nodes@.map_values(|n: ConceptNode| n.name@),
        ),
    ] + s.nodes@.map_values(|n: ConceptNode| concept_row(n))
}

/// The rows of all sections, in order.
pub open spec fn map_rows(sections: Seq<OutlineSection>) -> Seq<MapRowView>
    decreases sections.len(),
{
    if sections.len() == 0 {
        Seq::empty()
    } else {
        map_rows(sections.drop_last()) + section_rows(sections.last())
    }
}

pub open spec fn rows_view(rows: Seq<MapRow>) -> Seq<MapRowView> {
    rows.map_values(|r: MapRow| r@)
}

/// Learning-map tree picker: choosing a concept reviews it, choosing a
/// section reviews the whole section.
pub struct ReviewMapPicker {
    pub title: String,
    pub rows: Vec<MapRow>,
    pub selected: usize,
}

impl ReviewMapPicker {
    pub fn from_map(map: &ReviewMap) -> (r: Self)
        ensures
            r.title@ == map.course@ + " · Learning Map"@,
            rows_view(r.rows@) == map_rows(map.sections@),
            r.selected == 0,
    {
        let counts = map.section_counts();
        let mut rows: Vec<MapRow> = Vec::new();
        let mut i: usize = 0;
        while i < map.sections.len()
            invariant
                i <= map.sections.len(),
                counts@.len() == map.sections@.len(),
                forall|k: int| 0 <= k < counts@.len() ==> #[trigger] counts@[k] == counts_of(map.sections@[k].nodes@),
                rows_view(rows@) == map_rows(map.sections@.take(i as int)),
            decreases map.sections.len() - i,
        {
            let s = &map.sections[i];
            let ghost before = rows_view(rows@);
            let mut names: Vec<String> = Vec::new();
            let mut j: usize = 0;
            while j < s.nodes.len()
                invariant
                    j <= s.nodes.len(),
                    names@.len() == j,
                    forall|k: int| 0 <= k < j ==> #[trigger] names@[k]@ == s.nodes@[k].name@,
                decreases s.nodes.len() - j,
            {
                names.push(s.nodes[j].name.clone());
                j = j + 1;
            }
            assert(names@.map_values(|n: String| n@) =~= s.nodes@.map_values(|n: ConceptNode| n.name@));
            rows.push(MapRow::Section { title: s.title.clone(), counts: counts[i], concept_names: names });
            let ghost mid = rows_view(rows@);
            let mut j: usize = 0;
            while j < s.nodes.len()
                invariant
                    j <= s.nodes.len(),
                    rows_view(rows@) == mid + s.nodes@.take(j as int).map_values(|n: ConceptNode| concept_row(n)),
                decreases s.nodes.len() - j,
            {
                let n = &s.nodes[j];
                let m = chars_of(n.status().mark());
                let mark = if m.len() > 0 {
                    m[0]
                } else {
                    '○'
                };
                let ghost r0 = rows_view(rows@);
                rows.push(MapRow::Concept { name: n.name.clone(), mark, attempts: n.attempts, correct: n.correct });
                assert(rows_view(rows@) =~= r0.push(concept_row(*n)));
                j = j + 1;
                assert(s.nodes@.take(j as int).map_values(|n: ConceptNode| concept_row(n)) =~= s.nodes@.take(j - 1).map_values(|n: ConceptNode| concept_row(n)).push(concept_row(s.nodes@[j - 1])));
            }
            assert(s.nodes@.take(s.nodes.len() as int) =~= s.nodes@);
            assert(map.sections@.take(i + 1).drop_last() =~= map.sections@.take(i as int));
            assert(rows_view(rows@) =~= map_rows(map.sections@.take(i as int)) + section_rows(*s));
            i = i + 1;
        }
        assert(map.sections@.take(map.sections.len() as int) =~= map.sections@);
        let mut title = map.course.clone();
        title.push_str(" · Learning Map");
        ReviewMapPicker { title, rows, selected: 0 }
    }

    pub fn len(&self) -> (r: usize)
        ensures
            r == self.rows@.len(),
    {
        self.rows.len()
    }

    pub fn is_empty(&self) -> (r: bool)
        ensures
            r == (self.rows@.len() == 0),
    {
        self.rows.len() == 0
    }
}

// ---------------------------------------------------------------------------
// Keys of the palette and the pickers
// ---------------------------------------------------------------------------
/// `a - b`, not below 0.
pub open spec fn sat_sub(a: int, b: int) -> int {
    if a > b {
        a - b
    } else {
        0
    }
}

/// Cursor after moving down by `step` in a list of `n` rows (kept when empty).
pub open spec fn moved_down(cursor: int, step: int, n: int) -> int {
    if n == 0 {
        cursor
    } else if cursor + step < n - 1 {
        cursor + step
    } else {
        n - 1
    }
}

/// What a key in the command palette asks for.
#[derive(Debug, Clone, Copy, PartialEq, Eq, Structural)]
pub enum PaletteKey {
    /// Not the palette's: an editing key for the shared input (the filter).
    Pass,
    Handled,
    /// Esc: the palette closes and the saved input comes back.
    Close,
    /// Enter (or Tab, which only fills the command text) on the selected item.
    Execute { fill_only: bool },
}

/// What the chosen palette item does.
#[derive(Debug, Clone, Copy)]
pub enum PaletteStep {
    /// Tab: the command text goes into the restored input line.
    Fill,
    /// The command runs as typed.
    Run,
    OpenModel,
    OpenSessions,
    BudgetInfo,
    BudgetReset,
    WizardReview,
    WizardImport,
    /// Rename Session while no session is saved yet: an error is shown.
    NoSession,
    /// The course creation wizard (the same one as Home's "+ New Course").
    CreateCourse,
    /// A one-step text wizard.
    Prompt { title: &'static str, prompt: &'static str, kind: WizardKind },
    Pick(PickKind),
}

/// The message shown for Rename Session without a saved session.
pub const NO_SESSION_MSG: &'static str = "当前没有已持久化的聊天会话——先发一条消息创建会话";

/// What executing an item does: Tab always fills the command text; Enter
/// follows the item's action.
pub fn palette_step(action: PaletteAction, fill_only: bool, has_session: bool) -> (r: PaletteStep)
    ensures
        fill_only ==> r is Fill,
        !fill_only ==> match action {
            PaletteAction::Run => r is Run,
            PaletteAction::OpenModel => r is OpenModel,
            PaletteAction::OpenSessions => r is OpenSessions,
            PaletteAction::BudgetInfo => r is BudgetInfo,
            PaletteAction::BudgetReset => r is BudgetReset,
            PaletteAction::WizardReview => r is WizardReview,
            PaletteAction::WizardImport => r is WizardImport,
            PaletteAction::Prompt { title, prompt, kind } => if kind == WizardKind::RenameSession
                && !has_session {
                r is NoSession
            } else if kind == WizardKind::CreateCourse {
                r is CreateCourse
            } else {
                r == (PaletteStep::Prompt { title, prompt, kind })
            },
            PaletteAction::Pick(k) => r == PaletteStep::Pick(k),
        },
{
    if fill_only {
        return PaletteStep::Fill;
    }
    match action {
        PaletteAction::Run => PaletteStep::Run,
        PaletteAction::OpenModel => PaletteStep::OpenModel,
        PaletteAction::OpenSessions => PaletteStep::OpenSessions,
        PaletteAction::BudgetInfo => PaletteStep::BudgetInfo,
        PaletteAction::BudgetReset => PaletteStep::BudgetReset,
        PaletteAction::WizardReview => PaletteStep::WizardReview,
        PaletteAction::WizardImport => PaletteStep::WizardImport,
        PaletteAction::Prompt { title, prompt, kind } => {
            if kind == WizardKind::RenameSession && !has_session {
                PaletteStep::NoSession
            } else if kind == WizardKind::CreateCourse {
                PaletteStep::CreateCourse
            } else {
                PaletteStep::Prompt { title, prompt, kind }
            }
        },
        PaletteAction::Pick(k) => PaletteStep::Pick(k),
    }
}

impl CommandPalette {
    /// Navigation keys of the palette; editing keys pass to the shared input.
    pub fn handle_key(&mut self, key: Key) -> (r: PaletteKey)
        requires
            old(self).selected < usize::MAX,
        ensures
            final(self).items@ == old(self).items@,
            final(self).filtered@ == old(self).filtered@,
            final(self).scroll == old(self).scroll,
            !key.press ==> r is Pass && final(self).selected == old(self).selected,
            key.press ==> match key.code {
                KeyCode::Esc => r is Close && final(self).selected == old(self).selected,
                KeyCode::Up => r is Handled && final(self).selected == sat_sub(
                    old(self).selected as int,
                    1,
                ),
                KeyCode::Down => r is Handled && final(self).selected == moved_down(
                    old(self).selected as int,
                    1,
                    old(self).filtered@.len() as int,
                ),
                KeyCode::Enter => r == (PaletteKey::Execute { fill_only: false })
                    && final(self).selected == old(self).selected,
                KeyCode::Tab => r == (PaletteKey::Execute { fill_only: true }) && final(self).selected == old(self).selected,
                _ => r is Pass && final(self).selected == old(self).selected,
            },
    {
        if !key.press {
            return PaletteKey::Pass;
        }
        match key.code {
            KeyCode::Esc => PaletteKey::Close,
            KeyCode::Up => {
                if self.selected > 0 {
                    self.selected = self.selected - 1;
                }
                PaletteKey::Handled
            },
            KeyCode::Down => {
                let n = self.filtered.len();
                if n > 0 {
                    self.selected = if self.selected + 1 < n - 1 {
                        self.selected + 1
                    } else {
                        n - 1
                    };
                }
                PaletteKey::Handled
            },
            KeyCode::Enter => PaletteKey::Execute { fill_only: false },
            KeyCode::Tab => PaletteKey::Execute { fill_only: true },
            _ => PaletteKey::Pass,
        }
    }

    /// The item under the selection: `filtered[selected]`, if both exist.
    pub fn chosen(&self) -> (r: Option<usize>)
        ensures
            r == (if self.selected < self.filtered@.len() && self.filtered@[self.selected as int]
                < self.items@.len() {
                Some(self.filtered@[self.selected as int])
            } else {
                None::<usize>
            }),
    {
        if self.selected < self.filtered.len() && self.filtered[self.selected] < self.items.len() {
            Some(self.filtered[self.selected])
        } else {
            None
        }
    }
}

/// What a key in a list picker asks for.
#[derive(Debug, Clone, Copy, PartialEq, Eq, Structural)]
pub enum ListKey {
    /// Not the picker's: an editing key for the shared input (the filter).
    Pass,
    Handled,
    /// Esc: the picker closes and the saved input comes back.
    Close,
    /// Enter: this item is chosen (its action runs, or its command is submitted).
    Choose(usize),
}

/// The list picker's visible rows for the filter `input`.
pub open spec fn visible_spec(items: Seq<ListChoice>, input: Seq<char>) -> Seq<usize> {
    filter_indices(items.len(), |k: int| choice_matches(items[k].label@, input))
}

impl ListPicker {
    /// Navigation keys of a list picker over the rows visible for `input`.
    pub fn handle_key(&mut self, input: &str, key: Key) -> (r: ListKey)
        requires
            old(self).selected <= usize::MAX - 10,
        ensures
            final(self).items@ == old(self).items@,
            final(self).title@ == old(self).title@,
            ({
                let vis = visible_spec(old(self).items@, input@);
                let sel = old(self).selected as int;
                if !key.press {
                    r is Pass && final(self).selected == sel
                } else {
                    match key.code {
                        KeyCode::Esc => r is Close && final(self).selected == sel,
                        KeyCode::Up => r is Handled && final(self).selected == sat_sub(sel, 1),
                        KeyCode::Down => r is Handled && final(self).selected == moved_down(
                            sel,
                            1,
                            vis.len() as int,
                        ),
                        KeyCode::PageUp => r is Handled && final(self).selected == sat_sub(sel, 10),
                        KeyCode::PageDown => r is Handled && final(self).selected == moved_down(
                            sel,
                            10,
                            vis.len() as int,
                        ),
                        KeyCode::Enter => final(self).selected == sel && if sel < vis.len()
                            && vis[sel] < old(self).items@.len() {
                            r == ListKey::Choose(vis[sel])
                        } else {
                            r is Handled
                        },
                        _ => r is Pass && final(self).selected == sel,
                    }
                }
            }),
    {
        if !key.press {
            return ListKey::Pass;
        }
        match key.code {
            KeyCode::Esc => ListKey::Close,
            KeyCode::Up => {
                if self.selected > 0 {
                    self.selected = self.selected - 1;
                }
                ListKey::Handled
            },
            KeyCode::PageUp => {
                self.selected = if self.selected > 10 {
                    self.selected - 10
                } else {
                    0
                };
                ListKey::Handled
            },
            KeyCode::Down | KeyCode::PageDown => {
                let step: usize = if key.code == KeyCode::Down {
                    1
                } else {
                    10
                };
                let n = self.visible(input).len();
                if n > 0 {
                    self.selected = if self.selected + step < n - 1 {
                        self.selected + step
                    } else {
                        n - 1
                    };
                }
                ListKey::Handled
            },
            KeyCode::Enter => {
                let vis = self.visible(input);
                if self.selected < vis.len() && vis[self.selected] < self.items.len() {
                    ListKey::Choose(vis[self.selected])
                } else {
                    ListKey::Handled
                }
            },
            _ => ListKey::Pass,
        }
    }
}

/// The list picker of a pick action: one row per real course ("all" is no
/// course), with the command that names the course by id.
pub fn course_picker(courses: &[(i64, String)], kind: PickKind) -> (r: Option<ListPicker>)
    ensures
        courses@.len() == 0 <==> r is None,
        r matches Some(p) ==> {
            &&& p.selected == 0
            &&& p.title@ == (match kind {
                PickKind::CourseSwitch => "切换课程分区"@,
                PickKind::CourseDelete => "删除课程（其笔记回落 all 区）"@,
            })
            &&& p.items@.len() == courses@.len()
            &&& forall|i: int|
                #![trigger p.items@[i]]
                0 <= i < courses@.len() ==> {
                    let (id, name) = courses@[i];
                    &&& p.items@[i].label@ == name@
                    &&& p.items@[i].command@ == (match kind {
                        PickKind::CourseSwitch => "/course --id "@,
                        PickKind::CourseDelete => "/course -delete --id "@,
                    }) + signed_decimal(id as int)
                    &&& p.items@[i].action == Some(match kind {
                        PickKind::CourseSwitch => ListChoiceAction::SwitchCourse(id),
                        PickKind::CourseDelete => ListChoiceAction::DeleteCourse(id),
                    })
                }
        },
{
    if courses.len() == 0 {
        return None;
    }
    let mut items: Vec<ListChoice> = Vec::new();
    let mut i: usize = 0;
    while i < courses.len()
        invariant
            i <= courses.len(),
            items@.len() == i,
            forall|j: int|
                #![trigger items@[j]]
                0 <= j < i ==> {
                    let (id, name) = courses@[j];
                    &&& items@[j].label@ == name@
                    &&& items@[j].command@ == (match kind {
                        PickKind::CourseSwitch => "/course --id "@,
                        PickKind::CourseDelete => "/course -delete --id "@,
                    }) + signed_decimal(id as int)
                    &&& items@[j].action == Some(match kind {
                        PickKind::CourseSwitch => ListChoiceAction::SwitchCourse(id),
                        PickKind::CourseDelete => ListChoiceAction::DeleteCourse(id),
                    })
                },
        decreases courses.len() - i,
    {
        let id = courses[i].0;
        let mut command = match kind {
            PickKind::CourseSwitch => "/course --id ".to_owned(),
            PickKind::CourseDelete => "/course -delete --id ".to_owned(),
        };
        let digits = signed_decimal_string(id);
        command.push_str(digits.as_str());
        let action = match kind {
            PickKind::CourseSwitch => ListChoiceAction::SwitchCourse(id),
            PickKind::CourseDelete => ListChoiceAction::DeleteCourse(id),
        };
        items.push(ListChoice { label: courses[i].1.clone(), command, action: Some(action) });
        i = i + 1;
    }
    let title = match kind {
        PickKind::CourseSwitch => "切换课程分区".to_owned(),
        PickKind::CourseDelete => "删除课程（其笔记回落 all 区）".to_owned(),
    };
    Some(ListPicker { title, items, selected: 0 })
}

/// Decimal notation of an integer, with `-` for a negative one.
pub open spec fn signed_decimal(n: int) -> Seq<char> {
    if n < 0 {
        seq!['-'] + decimal((-n) as nat)
    } else {
        decimal(n as nat)
    }
}

/// `format!("{n}")` of an `i64`.
pub fn signed_decimal_string(n: i64) -> (r: String)
    ensures
        r@ == signed_decimal(n as int),
{
    if n < 0 {
        let m: u64 = if n == i64::MIN {
            9223372036854775808u64
        } else {
            (-n) as u64
        };
        let mut s = "-".to_owned();
        let d = crate::text::decimal_u64(m);
        s.push_str(d.as_str());
        proof {
            reveal_strlit("-");
        }
        s
    } else {
        crate::text::decimal_u64(n as u64)
    }
}

/// What a key in the learning-map picker asks for.
#[derive(Debug, Clone)]
pub enum MapKey {
    Pass,
    Handled,
    /// Esc: the picker closes and the saved input comes back.
    Close,
    /// Enter: review `scope` (a concept, or a section's concepts joined by
    /// "、") in the course `course_id`, after asking for the question count.
    Review { course_id: i64, scope: String },
}

/// What reviewing a row covers: the concept, or the whole section.
pub open spec fn row_scope(row: MapRowView) -> Seq<char> {
    match row {
        MapRowView::Concept(name, _, _, _) => name,
        MapRowView::Section(_, _, names) => join(names, "、"@),
    }
}

impl ReviewMapPicker {
    /// A key in the learning-map picker; `course_id` is the current course
    /// (without one, Enter does nothing).
    pub fn handle_key(&mut self, key: Key, course_id: Option<i64>) -> (r: MapKey)
        requires
            old(self).selected <= usize::MAX - 10,
        ensures
            final(self).title@ == old(self).title@,
            rows_view(final(self).rows@) == rows_view(old(self).rows@),
            ({
                let sel = old(self).selected as int;
                let n = old(self).rows@.len() as int;
                if !key.press {
                    r is Pass && final(self).selected == sel
                } else {
                    match key.code {
                        KeyCode::Esc => r is Close && final(self).selected == sel,
                        KeyCode::Up => r is Handled && final(self).selected == sat_sub(sel, 1),
                        KeyCode::Down => r is Handled && final(self).selected == moved_down(sel, 1, n),
                        KeyCode::PageUp => r is Handled && final(self).selected == sat_sub(sel, 10),
                        KeyCode::PageDown => r is Handled && final(self).selected == min_int(
                            sel + 10,
                            sat_sub(n, 1),
                        ),
                        KeyCode::Char(c) => final(self).selected == (if c == 'k' {
                            sat_sub(sel, 1)
                        } else if c == 'j' {
                            moved_down(sel, 1, n)
                        } else {
                            sel
                        }) && if c == 'k' || c == 'j' {
                            r is Handled
                        } else {
                            r is Pass
                        },
                        KeyCode::Enter => final(self).selected == sel && if sel < n && course_id
                            is Some {
                            r matches MapKey::Review { course_id: id, scope } && Some(id)
                                == course_id && scope@ == row_scope(old(self).rows@[sel]@)
                        } else {
                            r is Handled
                        },
                        _ => r is Pass && final(self).selected == sel,
                    }
                }
            }),
    {
        if !key.press {
            return MapKey::Pass;
        }
        let n = self.rows.len();
        let up = key.code == KeyCode::Up || key.code == KeyCode::Char('k');
        let down = key.code == KeyCode::Down || key.code == KeyCode::Char('j');
        if up {
            if self.selected > 0 {
                self.selected = self.selected - 1;
            }
            return MapKey::Handled;
        }
        if down {
            if n > 0 {
                self.selected = if self.selected + 1 < n - 1 {
                    self.selected + 1
                } else {
                    n - 1
                };
            }
            return MapKey::Handled;
        }
        match key.code {
            KeyCode::Esc => MapKey::Close,
            KeyCode::PageUp => {
                self.selected = if self.selected > 10 {
                    self.selected - 10
                } else {
                    0
                };
                MapKey::Handled
            },
            KeyCode::PageDown => {
                let last = if n > 0 {
                    n - 1
                } else {
                    0
                };
                self.selected = if self.selected + 10 < last {
                    self.selected + 10
                } else {
                    last
                };
                MapKey::Handled
            },
            KeyCode::Enter => {
                if self.selected >= n {
                    return MapKey::Handled;
                }
                let id = match course_id {
                    Some(id) => id,
                    None => return MapKey::Handled,
                };
                let scope = match &self.rows[self.selected] {
                    MapRow::Concept { name, .. } => name.clone(),
                    MapRow::Section { concept_names, .. } => {
                        let parts = crate::text::chars_of_all(concept_names.as_slice());
                        let sep = chars_of("、");
                        proof {
                            reveal_strlit("、");
                            assert(vviews(parts@) == concept_names@.map_values(|n: String| n@));
                        }
                        string_of(join_chars(parts.as_slice(), sep.as_slice()).as_slice())
                    },
                };
                MapKey::Review { course_id: id, scope }
            },
            _ => MapKey::Pass,
        }
    }
}

pub open spec fn min_int(a: int, b: int) -> int {
    if a <= b {
        a
    } else {
        b
    }
}

// ---------------------------------------------------------------------------
// Model picker
// ---------------------------------------------------------------------------
/// A model of a configured provider, as the picker shows it.
#[derive(Debug, Clone)]
pub struct ModelInfo {
    pub id: String,
    pub display_name: String,
    pub thinking: bool,
}

/// A configured provider: its name, whether its prices are known (cost
/// tracking available), and its models.
#[derive(Debug, Clone)]
pub struct ProviderModels {
    pub name: String,
    pub known_pricing: bool,
    pub models: Vec<ModelInfo>,
}

/// A row of the model picker.
#[derive(Debug, Clone)]
pub struct ModelOption {
    /// Provider name (switch target).
    pub provider: String,
    /// Provider display name (group header).
    pub provider_display: String,
    /// Model id.
    pub model: String,
    /// Model display name.
    pub model_display: String,
    /// Whether the prices are known (cost tracking available).
    pub known_pricing: bool,
    /// Thinking mode.
    pub thinking: bool,
    /// A role row (fast/balanced/reasoning bound to a model), not a model.
    pub is_role: bool,
}

pub struct OptionView {
    pub provider: Seq<char>,
    pub provider_display: Seq<char>,
    pub model: Seq<char>,
    pub model_display: Seq<char>,
    pub known_pricing: bool,
    pub thinking: bool,
    pub is_role: bool,
}

impl View for ModelOption {
    type V = OptionView;

    open spec fn view(&self) -> OptionView {
        OptionView {
            provider: self.provider@,
            provider_display: self.provider_display@,
            model: self.model@,
            model_display: self.model_display@,
            known_pricing: self.known_pricing,
            thinking: self.thinking,
            is_role: self.is_role,
        }
    }
}

pub open spec fn options_view(v: Seq<ModelOption>) -> Seq<OptionView> {
    v.map_values(|o: ModelOption| o@)
}

/// The model picker (every provider's models, grouped).
pub struct ModelPicker {
    pub options: Vec<ModelOption>,
    pub selected: usize,
    /// `Some(role)`: choosing the model of that role; `None`: switching the
    /// current model.
    pub role: Option<String>,
    /// The role bindings (role → "provider/model").
    pub roles: Vec<(String, String)>,
}

pub open spec fn role_row(name: Seq<char>) -> OptionView {
    OptionView {
        provider: Seq::empty(),
        provider_display: Seq::empty(),
        model: Seq::empty(),
        model_display: name,
        known_pricing: false,
        thinking: false,
        is_role: true,
    }
}

/// The role rows at the top: fast, balanced, reasoning.
pub open spec fn role_rows() -> Seq<OptionView> {
    seq![role_row("fast"@), role_row("balanced"@), role_row("reasoning"@)]
}

pub open spec fn model_row(p: ProviderModels, m: ModelInfo) -> OptionView {
    OptionView {
        provider: p.name@,
        provider_display: p.name@,
        model: m.id@,
        model_display: m.display_name@,
        known_pricing: p.known_pricing,
        thinking: m.thinking,
        is_role: false,
    }
}

/// The model rows of all providers, provider by provider.
pub open spec fn model_rows(ps: Seq<ProviderModels>) -> Seq<OptionView>
    decreases ps.len(),
{
    if ps.len() == 0 {
        Seq::empty()
    } else {
        model_rows(ps.drop_last()) + ps.last().models@.map_values(
            |m: ModelInfo| model_row(ps.last(), m),
        )
    }
}

/// Index of the last row for `provider`/`model`, or -1.
pub open spec fn last_current(rows: Seq<OptionView>, provider: Seq<char>, model: Seq<char>) -> int
    decreases rows.len(),
{
    if rows.len() == 0 {
        -1
    } else if !rows.last().is_role && rows.last().provider == provider && rows.last().model
        == model {
        rows.len() - 1
    } else {
        last_current(rows.drop_last(), provider, model)
    }
}

/// The row where a binding `bound` ("provider/model") sits, or -1.
pub open spec fn last_bound(rows: Seq<OptionView>, bound: Seq<char>) -> int
    decreases rows.len(),
{
    if rows.len() == 0 {
        -1
    } else if bound.len() > 0 && rows.last().provider + "/"@ + rows.last().model == bound {
        rows.len() - 1
    } else {
        last_bound(rows.drop_last(), bound)
    }
}

/// The model rows (the role rows left out), as real models.
pub open spec fn real_models(rows: Seq<OptionView>) -> Seq<OptionView>
    decreases rows.len(),
{
    if rows.len() == 0 {
        Seq::empty()
    } else if rows.last().is_role {
        real_models(rows.drop_last())
    } else {
        real_models(rows.drop_last()).push(OptionView { is_role: false, ..rows.last() })
    }
}

/// The binding of `role` (the first one listed), or empty.
pub open spec fn binding_of(roles: Seq<(String, String)>, role: Seq<char>) -> Seq<char>
    decreases roles.len(),
{
    if roles.len() == 0 {
        Seq::empty()
    } else if roles[0].0@ == role {
        roles[0].1@
    } else {
        binding_of(roles.drop_first(), role)
    }
}

fn option_of(p: &ProviderModels, m: &ModelInfo) -> (r: ModelOption)
    ensures
        r@ == model_row(*p, *m),
{
    ModelOption {
        provider: p.name.clone(),
        provider_display: p.name.clone(),
        model: m.id.clone(),
        model_display: m.display_name.clone(),
        known_pricing: p.known_pricing,
        thinking: m.thinking,
        is_role: false,
    }
}

fn role_option(name: &str) -> (r: ModelOption)
    ensures
        r@ == role_row(name@),
{
    ModelOption {
        provider: String::new(),
        provider_display: String::new(),
        model: String::new(),
        model_display: name.to_owned(),
        known_pricing: false,
        thinking: false,
        is_role: true,
    }
}

fn opt_matches(o: &ModelOption, provider: &str, model: &str) -> (r: bool)
    ensures
        r == (!o@.is_role && o@.provider == provider@ && o@.model == model@),
{
    !o.is_role && str_eq(o.provider.as_str(), provider) && str_eq(o.model.as_str(), model)
}

/// No role is bound twice (the bindings form a map from role to model).
pub open spec fn distinct_roles(roles: Seq<(String, String)>) -> bool {
    forall|i: int, j: int| 0 <= i < j < roles.len() ==> #[trigger] roles[i].0@ != #[trigger] roles[j].0@
}

impl ModelPicker {
    /// The rows: the three role rows, then every provider's models; the
    /// selection on the current provider/model (else on the first row).
    /// `roles` is the map of role bindings, one entry per role.
    pub fn from_providers(
        providers: &[ProviderModels],
        current_provider: &str,
        current_model: &str,
        roles: &[(String, String)],
    ) -> (r: Self)
        requires
            distinct_roles(roles@),
        ensures
            distinct_roles(r.roles@),
            options_view(r.options@) == role_rows() + model_rows(providers@),
            r.selected == (if last_current(
                role_rows() + model_rows(providers@),
                current_provider@,
                current_model@,
            ) >= 0 {
                last_current(role_rows() + model_rows(providers@), current_provider@, current_model@)
            } else {
                0
            }),
            r.role is None,
            r.roles@.len() == roles@.len(),
            forall|i: int|
                #![trigger r.roles@[i]]
                0 <= i < roles@.len() ==> r.roles@[i].0@ == roles@[i].0@ && r.roles@[i].1@
                    == roles@[i].1@,
    {
        let mut options: Vec<ModelOption> = Vec::new();
        options.push(role_option("fast"));
        options.push(role_option("balanced"));
        options.push(role_option("reasoning"));
        assert(options_view(options@) =~= role_rows());
        proof {
            reveal_with_fuel(last_current, 4);
        }
        let mut selected: usize = 0;
        let mut i: usize = 0;
        while i < providers.len()
            invariant
                i <= providers.len(),
                options@.len() >= 3,
                options_view(options@) == role_rows() + model_rows(providers@.take(i as int)),
                selected == (if last_current(
                    options_view(options@),
                    current_provider@,
                    current_model@,
                ) >= 0 {
                    last_current(options_view(options@), current_provider@, current_model@)
                } else {
                    0
                }),
            decreases providers.len() - i,
        {
            let p = &providers[i];
            let ghost base = options_view(options@);
            let mut j: usize = 0;
            while j < p.models.len()
                invariant
                    j <= p.models.len(),
                    options@.len() >= 3,
                    options_view(options@) == base + p.models@.take(j as int).map_values(
                        |m: ModelInfo| model_row(*p, m),
                    ),
                    selected == (if last_current(
                        options_view(options@),
                        current_provider@,
                        current_model@,
                    ) >= 0 {
                        last_current(options_view(options@), current_provider@, current_model@)
                    } else {
                        0
                    }),
                decreases p.models.len() - j,
            {
                let o = option_of(p, &p.models[j]);
                let ghost before = options_view(options@);
                if opt_matches(&o, current_provider, current_model) {
                    selected = options.len();
                }
                options.push(o);
                assert(options_view(options@) =~= before.push(model_row(*p, p.models@[j as int])));
                assert(options_view(options@).drop_last() =~= before);
                j = j + 1;
                assert(p.models@.take(j as int).map_values(|m: ModelInfo| model_row(*p, m))
                    =~= p.models@.take(j - 1).map_values(|m: ModelInfo| model_row(*p, m)).push(
                    model_row(*p, p.models@[j - 1]),
                ));
            }
            assert(p.models@.take(p.models.len() as int) =~= p.models@);
            assert(providers@.take(i + 1).drop_last() =~= providers@.take(i as int));
            assert(options_view(options@) =~= role_rows() + model_rows(providers@.take(i + 1)));
            i = i + 1;
        }
        assert(providers@.take(providers.len() as int) =~= providers@);
        let mut rs: Vec<(String, String)> = Vec::new();
        let mut k: usize = 0;
        while k < roles.len()
            invariant
                k <= roles.len(),
                rs@.len() == k,
                forall|m: int|
                    #![trigger rs@[m]]
                    0 <= m < k ==> rs@[m].0@ == roles@[m].0@ && rs@[m].1@ == roles@[m].1@,
            decreases roles.len() - k,
        {
            rs.push((roles[k].0.clone(), roles[k].1.clone()));
            k = k + 1;
        }
        ModelPicker { options, selected, role: None, roles: rs }
    }

    /// Enters the choice of `role`'s model: only real models stay, the
    /// selection on the role's current binding if it has one.
    pub fn enter_role(&mut self, role: &str)
        ensures
            final(self).role matches Some(r) && r@ == role@,
            options_view(final(self).options@) == real_models(options_view(old(self).options@)),
            final(self).selected == (if last_bound(
                real_models(options_view(old(self).options@)),
                binding_of(old(self).roles@, role@),
            ) >= 0 {
                last_bound(
                    real_models(options_view(old(self).options@)),
                    binding_of(old(self).roles@, role@),
                )
            } else {
                0
            }),
            final(self).roles@ == old(self).roles@,
    {
        let mut bound = String::new();
        let mut found = false;
        let mut k: usize = 0;
        assert(self.roles@.skip(0) =~= self.roles@);
        while k < self.roles.len() && !found
            invariant
                k <= self.roles.len(),
                self.roles@ == old(self).roles@,
                found ==> bound@ == binding_of(self.roles@, role@),
                !found ==> bound@.len() == 0,
                !found ==> binding_of(self.roles@, role@) == binding_of(
                    self.roles@.skip(k as int),
                    role@,
                ),
            decreases self.roles.len() - k + (if found { 0int } else { 1int }),
        {
            assert(self.roles@.skip(k as int).drop_first() =~= self.roles@.skip(k + 1));
            assert(self.roles@.skip(k as int)[0] == self.roles@[k as int]);
            if str_eq(self.roles[k].0.as_str(), role) {
                bound = self.roles[k].1.clone();
                found = true;
            } else {
                k = k + 1;
            }
        }
        proof {
            if !found {
                assert(self.roles@.skip(k as int) =~= Seq::<(String, String)>::empty());
            }
        }
        assert(bound@ == binding_of(old(self).roles@, role@));
        let mut models: Vec<ModelOption> = Vec::new();
        let mut selected: usize = 0;
        let mut i: usize = 0;
        while i < self.options.len()
            invariant
                i <= self.options.len(),
                self.options@ == old(self).options@,
                self.roles@ == old(self).roles@,
                options_view(models@) == real_models(options_view(self.options@).take(i as int)),
                selected == (if last_bound(options_view(models@), bound@) >= 0 {
                    last_bound(options_view(models@), bound@)
                } else {
                    0
                }),
            decreases self.options.len() - i,
        {
            let o = &self.options[i];
            let ghost pre = options_view(self.options@).take(i as int);
            assert(options_view(self.options@).take(i + 1).drop_last() =~= pre);
            assert(options_view(self.options@).take(i + 1).last() == o@);
            if !o.is_role {
                let c = ModelOption {
                    provider: o.provider.clone(),
                    provider_display: o.provider_display.clone(),
                    model: o.model.clone(),
                    model_display: o.model_display.clone(),
                    known_pricing: o.known_pricing,
                    thinking: o.thinking,
                    is_role: false,
                };
                let mut key = o.provider.clone();
                key.push_str("/");
                key.push_str(o.model.as_str());
                proof {
                    reveal_strlit("/");
                }
                let ghost before = options_view(models@);
                if !bound.as_str().is_empty() && str_eq(key.as_str(), bound.as_str()) {
                    selected = models.len();
                }
                models.push(c);
                assert(options_view(models@) =~= before.push(OptionView { is_role: false, ..o@ }));
                assert(options_view(models@).drop_last() =~= before);
            }
            i = i + 1;
        }
        assert(options_view(self.options@).take(self.options.len() as int) =~= options_view(
            self.options@,
        ));
        self.role = Some(role.to_owned());
        self.options = models;
        self.selected = selected;
    }

    /// Whether the selected row is a role row.
    pub fn selected_is_role(&self) -> (r: bool)
        ensures
            r == (self.selected < self.options@.len() && self.options@[self.selected as int].is_role),
    {
        self.selected < self.options.len() && self.options[self.selected].is_role
    }
}

/// What a key in the model picker asks for.
#[derive(Debug, Clone)]
pub enum ModelKey {
    Handled,
    /// Esc or q: the picker closes.
    Close,
    /// Switch to this provider/model; the picker closes.
    Switch { provider: String, model: String },
}

impl ModelPicker {
    /// A key in the model picker: ↑↓ (or k/j) move, Esc/q close, Enter
    /// switches to the selected row, a digit 1–9 to that row directly.
    pub fn handle_key(&mut self, key: Key) -> (r: ModelKey)
        requires
            old(self).selected < usize::MAX,
        ensures
            options_view(final(self).options@) == options_view(old(self).options@),
            final(self).role == old(self).role,
            ({
                let sel = old(self).selected as int;
                let n = old(self).options@.len() as int;
                let opts = old(self).options@;
                match key.code {
                    KeyCode::Up => r is Handled && final(self).selected == sat_sub(sel, 1),
                    KeyCode::Down => r is Handled && final(self).selected == moved_down(sel, 1, n),
                    KeyCode::Esc => r is Close && final(self).selected == sel,
                    KeyCode::Enter => final(self).selected == sel && if sel < n {
                        r matches ModelKey::Switch { provider, model } && provider@ == opts[sel]@.provider
                            && model@ == opts[sel]@.model
                    } else {
                        r is Close
                    },
                    KeyCode::Char(c) => if c == 'k' {
                        r is Handled && final(self).selected == sat_sub(sel, 1)
                    } else if c == 'j' {
                        r is Handled && final(self).selected == moved_down(sel, 1, n)
                    } else if c == 'q' {
                        r is Close && final(self).selected == sel
                    } else if '1' <= c <= '9' && (c as int) - ('1' as int) < n {
                        let idx = (c as int) - ('1' as int);
                        &&& final(self).selected == sel
                        &&& r matches ModelKey::Switch { provider, model } && provider@
                            == opts[idx]@.provider && model@ == opts[idx]@.model
                    } else {
                        r is Handled && final(self).selected == sel
                    },
                    _ => r is Handled && final(self).selected == sel,
                }
            }),
    {
        let n = self.options.len();
        let (up, down, close) = match key.code {
            KeyCode::Up => (true, false, false),
            KeyCode::Down => (false, true, false),
            KeyCode::Esc => (false, false, true),
            KeyCode::Char(c) => (c == 'k', c == 'j', c == 'q'),
            _ => (false, false, false),
        };
        if up {
            if self.selected > 0 {
                self.selected = self.selected - 1;
            }
            return ModelKey::Handled;
        }
        if down {
            if n > 0 {
                self.selected = if self.selected + 1 < n - 1 {
                    self.selected + 1
                } else {
                    n - 1
                };
            }
            return ModelKey::Handled;
        }
        if close {
            return ModelKey::Close;
        }
        let idx: usize = match key.code {
            KeyCode::Enter => {
                if self.selected >= n {
                    return ModelKey::Close;
                }
                self.selected
            },
            KeyCode::Char(c) => {
                let u = c as u32;
                if u < 49 || u > 57 {
                    return ModelKey::Handled;
                }
                let i = (u - 49) as usize;
                if i >= n {
                    return ModelKey::Handled;
                }
                i
            },
            _ => return ModelKey::Handled,
        };
        let o = &self.options[idx];
        ModelKey::Switch { provider: o.provider.clone(), model: o.model.clone() }
    }
}

} // verus!
