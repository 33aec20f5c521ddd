//! How the progress reports of an import show in the chat stream, and what
//! they change of the import's state.
use vstd::prelude::*;
use crate::events::{Entry, EntryView};
use crate::text::{decimal, decimal_string};

verus! {

/// A progress report of the importer.
#[derive(Debug, Clone)]
pub enum ImportReport {
    /// The import begins: number of files, and the course they go to.
    Started { total: usize, course: Option<String> },
    /// File `index` of `total` begins.
    FileStart { name: String, index: usize, total: usize },
    /// A file reached a new phase (parsing, concept extraction, storing),
    /// shown by its label.
    FileProgress { name: String, phase_label: String },
    FileDone { name: String, concepts: usize },
    /// A file was skipped, with the reason when there is one (already
    /// imported otherwise).
    FileSkipped { name: String, at: Option<String> },
    /// Storing the chunks of a file failed: the note cannot be searched yet.
    ChunkFail { name: String, err: String },
    FileFail { name: String, err: String },
    Finished { ok: usize, skipped: usize, fail: usize },
    Cancelled,
}

/// What happens to the file status shown during an import.
#[derive(Debug, Clone, Copy, PartialEq, Eq, Structural)]
pub enum StatusChange {
    Keep,
    /// A file starts: its status begins in the parsing phase.
    Start,
    /// The current file's phase becomes the reported one.
    Phase,
    Clear,
}

/// What a report does: the line it adds, the status change, whether the
/// import is over, and which lists must be read again.
#[derive(Debug, Clone)]
pub struct ImportStep {
    pub entry: Entry,
    pub status: StatusChange,
    /// The import ended (finished or cancelled).
    pub ended: bool,
    /// The course list must be read again (the import may create courses).
    pub refresh_courses: bool,
    /// The session list and the spending must be read again.
    pub refresh_sessions_and_cost: bool,
}

pub open spec fn dec(n: usize) -> Seq<char> {
    decimal(n as nat)
}

/// The line a report adds.
pub open spec fn report_line(ev: ImportReport) -> EntryView {
    match ev {
        ImportReport::Started { total, course } => EntryView::Info(
            "导入开始: 共 "@ + dec(total) + " 个文件"@ + match course {
                Some(c) => " → 课程 "@ + c@,
                None => Seq::empty(),
            },
        ),
        ImportReport::FileStart { name, index, total } => EntryView::Info(
            "["@ + dec(index) + "/"@ + dec(total) + "] 导入: "@ + name@,
        ),
        ImportReport::FileProgress { name, phase_label } => EntryView::Info(
            "    ↳ "@ + name@ + " · "@ + phase_label@,
        ),
        ImportReport::FileDone { name, concepts } => EntryView::Info(
            "  ✓ "@ + name@ + " → "@ + dec(concepts) + " 个概念"@,
        ),
        ImportReport::FileSkipped { name, at } => EntryView::Info(
            "  ⊘ "@ + name@ + "（"@ + match at {
                Some(d) => d@,
                None => "已存在，跳过"@,
            } + "）"@,
        ),
        ImportReport::ChunkFail { name, err } => EntryView::Error(
            "  ⚠ "@ + name@ + ": 切片入库失败，该笔记暂不可检索: "@ + err@,
        ),
        ImportReport::FileFail { name, err } => EntryView::Error("  ✗ "@ + name@ + ": "@ + err@),
        ImportReport::Finished { ok, skipped, fail } => EntryView::Info(
            "导入完成: ✓ "@ + dec(ok) + " 新建 / ⊘ "@ + dec(skipped) + " 跳过 / ✗ "@ + dec(fail) + " 失败"@,
        ),
        ImportReport::Cancelled => EntryView::Info("[导入已中断]"@),
    }
}

/// The status change a report makes.
pub open spec fn report_status(ev: ImportReport) -> StatusChange {
    match ev {
        ImportReport::FileStart { .. } => StatusChange::Start,
        ImportReport::FileProgress { .. } => StatusChange::Phase,
        ImportReport::FileDone { .. } | ImportReport::FileSkipped { .. } | ImportReport::FileFail { .. }
        | ImportReport::Finished { .. } => StatusChange::Clear,
        _ => StatusChange::Keep,
    }
}

fn push_dec(s: &mut String, n: usize)
    ensures
        final(s)@ == old(s)@ + dec(n),
{
    s.push_str(decimal_string(n).as_str());
}

/// What an import report does (see `report_line` and `report_status`):
/// the end of the import, finished or cancelled, re-reads the course list;
/// a finished one also the sessions and the spending.
pub fn import_step(ev: ImportReport) -> (r: ImportStep)
    ensures
        r.entry@ == report_line(ev),
        r.status == report_status(ev),
        r.ended == (ev is Finished || ev is Cancelled),
        r.refresh_courses == (ev is Finished || ev is Cancelled),
        r.refresh_sessions_and_cost == (ev is Finished),
{
    let ghost ev0 = ev;
    match ev {
        ImportReport::Started { total, course } => {
            let mut m = "导入开始: 共 ".to_string();
            push_dec(&mut m, total);
            m.push_str(" 个文件");
            match &course {
                Some(c) => {
                    m.push_str(" → 课程 ");
                    m.push_str(c.as_str());
                },
                None => {},
            }
            proof {
                assert(m@ =~= "导入开始: 共 "@ + dec(total) + " 个文件"@ + match course {
                    Some(c) => " → 课程 "@ + c@,
                    None => Seq::empty(),
                });
            }
            ImportStep {
                entry: Entry::Info(m),
                status: StatusChange::Keep,
                ended: false,
                refresh_courses: false,
                refresh_sessions_and_cost: false,
            }
        },
        ImportReport::FileStart { name, index, total } => {
            let mut m = "[".to_string();
            push_dec(&mut m, index);
            m.push_str("/");
            push_dec(&mut m, total);
            m.push_str("] 导入: ");
            m.push_str(name.as_str());
            ImportStep {
                entry: Entry::Info(m),
                status: StatusChange::Start,
                ended: false,
                refresh_courses: false,
                refresh_sessions_and_cost: false,
            }
        },
        ImportReport::FileProgress { name, phase_label } => {
            let mut m = "    ↳ ".to_string();
            m.push_str(name.as_str());
            m.push_str(" · ");
            m.push_str(phase_label.as_str());
            ImportStep {
                entry: Entry::Info(m),
                status: StatusChange::Phase,
                ended: false,
                refresh_courses: false,
                refresh_sessions_and_cost: false,
            }
        },
        ImportReport::FileDone { name, concepts } => {
            let mut m = "  ✓ ".to_string();
            m.push_str(name.as_str());
            m.push_str(" → ");
            push_dec(&mut m, concepts);
            m.push_str(" 个概念");
            ImportStep {
                entry: Entry::Info(m),
                status: StatusChange::Clear,
                ended: false,
                refresh_courses: false,
                refresh_sessions_and_cost: false,
            }
        },
        ImportReport::FileSkipped { name, at } => {
            let mut m = "  ⊘ ".to_string();
            m.push_str(name.as_str());
            m.push_str("（");
            match &at {
                Some(d) => m.push_str(d.as_str()),
                None => m.push_str("已存在，跳过"),
            }
            m.push_str("）");
            ImportStep {
                entry: Entry::Info(m),
                status: StatusChange::Clear,
                ended: false,
                refresh_courses: false,
                refresh_sessions_and_cost: false,
            }
        },
        ImportReport::ChunkFail { name, err } => {
            let mut m = "  ⚠ ".to_string();
            m.push_str(name.as_str());
            m.push_str(": 切片入库失败，该笔记暂不可检索: ");
            m.push_str(err.as_str());
            ImportStep {
                entry: Entry::Error(m),
                status: StatusChange::Keep,
                ended: false,
                refresh_courses: false,
                refresh_sessions_and_cost: false,
            }
        },
        ImportReport::FileFail { name, err } => {
            let mut m = "  ✗ ".to_string();
            m.push_str(name.as_str());
            m.push_str(": ");
            m.push_str(err.as_str());
            ImportStep {
                entry: Entry::Error(m),
                status: StatusChange::Clear,
                ended: false,
                refresh_courses: false,
                refresh_sessions_and_cost: false,
            }
        },
        ImportReport::Finished { ok, skipped, fail } => {
            let mut m = "导入完成: ✓ ".to_string();
            push_dec(&mut m, ok);
            m.push_str(" 新建 / ⊘ ");
            push_dec(&mut m, skipped);
            m.push_str(" 跳过 / ✗ ");
            push_dec(&mut m, fail);
            m.push_str(" 失败");
            ImportStep {
                entry: Entry::Info(m),
                status: StatusChange::Clear,
                ended: true,
                refresh_courses: true,
                refresh_sessions_and_cost: true,
            }
        },
        ImportReport::Cancelled => ImportStep {
            entry: Entry::Info("[导入已中断]".to_string()),
            status: StatusChange::Keep,
            ended: true,
            refresh_courses: true,
            refresh_sessions_and_cost: false,
        },
    }
}

} // verus!
