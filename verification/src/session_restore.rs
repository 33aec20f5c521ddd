//! Reopening a saved session: its messages become the chat stream again,
//! and the session's course becomes the current one.
use vstd::prelude::*;
use crate::events::{Entry, EntryView};
use crate::navigation::{course_index_by_id, ALL_COURSES};
use crate::palette::{signed_decimal, signed_decimal_string};
use crate::refs::{ChatMessage, ChatMessageView, MessageRole, msg_views};
use crate::text::{decimal, decimal_string, decimal_u64};

verus! {

/// The chat lines of a saved message: system and user messages with text
/// show it, an assistant message shows its text (empty without one), a
/// tool result shows as a marker line.
pub open spec fn message_lines(m: ChatMessageView) -> Seq<EntryView> {
    match m.role {
        MessageRole::System => match m.content {
            Some(c) => seq![EntryView::Info(c)],
            None => Seq::empty(),
        },
        MessageRole::User => match m.content {
            Some(c) => seq![EntryView::User(c)],
            None => Seq::empty(),
        },
        MessageRole::Assistant => seq![
            EntryView::Assistant(
                match m.content {
                    Some(c) => c,
                    None => Seq::empty(),
                },
                None,
            ),
        ],
        MessageRole::Tool => seq![EntryView::Info("[工具结果]"@)],
    }
}

pub open spec fn messages_lines(ms: Seq<ChatMessageView>) -> Seq<EntryView>
    decreases ms.len(),
{
    if ms.len() == 0 {
        Seq::empty()
    } else {
        messages_lines(ms.drop_last()) + message_lines(ms.last())
    }
}

/// The chat stream of a reopened session.
pub fn entries_of_messages(msgs: &[ChatMessage]) -> (r: Vec<Entry>)
    ensures
        crate::events::entries_view(r@) == messages_lines(msg_views(msgs@)),
{
    let mut out: Vec<Entry> = Vec::new();
    let mut i: usize = 0;
    while i < msgs.len()
        invariant
            i <= msgs.len(),
            crate::events::entries_view(out@) == messages_lines(msg_views(msgs@).take(i as int)),
        decreases msgs.len() - i,
    {
        let m = &msgs[i];
        let ghost o0 = crate::events::entries_view(out@);
        proof {
            assert(msg_views(msgs@).take(i + 1).drop_last() =~= msg_views(msgs@).take(i as int));
            assert(msg_views(msgs@).take(i + 1).last() == m@);
        }
        match m.role {
            MessageRole::System => match &m.content {
                Some(c) => {
                    out.push(Entry::Info(c.clone()));
                },
                None => {},
            },
            MessageRole::User => match &m.content {
                Some(c) => {
                    out.push(Entry::User(c.clone()));
                },
                None => {},
            },
            MessageRole::Assistant => {
                let content = match &m.content {
                    Some(c) => c.clone(),
                    None => String::new(),
                };
                out.push(Entry::Assistant { content, reasoning_chars: None });
            },
            MessageRole::Tool => {
                out.push(Entry::Info("[工具结果]".to_string()));
            },
        }
        proof {
            assert(crate::events::entries_view(out@) =~= o0 + message_lines(m@));
        }
        i = i + 1;
    }
    proof {
        assert(msg_views(msgs@).take(msgs.len() as int) =~= msg_views(msgs@));
    }
    out
}

/// The course of a reopened session: the course it belongs to when that
/// still exists, otherwise the global scope.
pub open spec fn session_course_spec(courses: Seq<(i64, String)>, course_id: Option<i64>) -> Seq<char> {
    match course_id {
        Some(cid) => match course_index_by_id(courses, cid, 0) {
            Some(k) => courses[k].1@,
            None => ALL_COURSES@,
        },
        None => ALL_COURSES@,
    }
}

pub fn session_course(courses: &[(i64, String)], course_id: Option<i64>) -> (r: String)
    ensures
        r@ == session_course_spec(courses@, course_id),
{
    match course_id {
        Some(cid) => {
            let mut i: usize = 0;
            while i < courses.len()
                invariant
                    i <= courses.len(),
                    course_id == Some(cid),
                    course_index_by_id(courses@, cid, 0) == course_index_by_id(courses@, cid, i as int),
                decreases courses.len() - i,
            {
                if courses[i].0 == cid {
                    assert(course_index_by_id(courses@, cid, i as int) == Some(i as int));
                    return courses[i].1.clone();
                }
                i = i + 1;
            }
            ALL_COURSES.to_string()
        },
        None => ALL_COURSES.to_string(),
    }
}

/// The notice after reopening session `id` in `course` with `count` messages.
pub fn reopened_notice(id: i64, course: &str, count: usize) -> (r: String)
    ensures
        r@ == "已恢复会话 #"@ + signed_decimal(id as int) + "（课程: "@ + course@ + "），共 "@ + decimal(count as nat)
            + " 条消息"@,
{
    let mut m = "已恢复会话 #".to_string();
    m.push_str(signed_decimal_string(id).as_str());
    m.push_str("（课程: ");
    m.push_str(course);
    m.push_str("），共 ");
    m.push_str(decimal_string(count).as_str());
    m.push_str(" 条消息");
    m
}

/// The chat lines of a message loaded from an export file: user messages
/// with text and every assistant message; other messages show nothing.
pub open spec fn loaded_message_lines(m: ChatMessageView) -> Seq<EntryView> {
    match m.role {
        MessageRole::User => match m.content {
            Some(c) => seq![EntryView::User(c)],
            None => Seq::empty(),
        },
        MessageRole::Assistant => seq![
            EntryView::Assistant(
                match m.content {
                    Some(c) => c,
                    None => Seq::empty(),
                },
                None,
            ),
        ],
        _ => Seq::empty(),
    }
}

pub open spec fn loaded_lines(ms: Seq<ChatMessageView>) -> Seq<EntryView>
    decreases ms.len(),
{
    if ms.len() == 0 {
        Seq::empty()
    } else {
        loaded_lines(ms.drop_last()) + loaded_message_lines(ms.last())
    }
}

/// The chat stream of a session loaded from an export file.
pub fn entries_of_loaded(msgs: &[ChatMessage]) -> (r: Vec<Entry>)
    ensures
        crate::events::entries_view(r@) == loaded_lines(msg_views(msgs@)),
{
    let mut out: Vec<Entry> = Vec::new();
    let mut i: usize = 0;
    while i < msgs.len()
        invariant
            i <= msgs.len(),
            crate::events::entries_view(out@) == loaded_lines(msg_views(msgs@).take(i as int)),
        decreases msgs.len() - i,
    {
        let m = &msgs[i];
        let ghost o0 = crate::events::entries_view(out@);
        proof {
            assert(msg_views(msgs@).take(i + 1).drop_last() =~= msg_views(msgs@).take(i as int));
            assert(msg_views(msgs@).take(i + 1).last() == m@);
        }
        match m.role {
            MessageRole::User => match &m.content {
                Some(c) => {
                    out.push(Entry::User(c.clone()));
                },
                None => {},
            },
            MessageRole::Assistant => {
                let content = match &m.content {
                    Some(c) => c.clone(),
                    None => String::new(),
                };
                out.push(Entry::Assistant { content, reasoning_chars: None });
            },
            _ => {},
        }
        proof {
            assert(crate::events::entries_view(out@) =~= o0 + loaded_message_lines(m@));
        }
        i = i + 1;
    }
    proof {
        assert(msg_views(msgs@).take(msgs.len() as int) =~= msg_views(msgs@));
    }
    out
}

/// The notice after loading `count` messages from `path` as a new session.
pub fn loaded_notice(path: &str, count: usize) -> (r: String)
    ensures
        r@ == "已从 "@ + path@ + " 加载 "@ + decimal(count as nat) + " 条消息为新会话"@,
{
    let mut m = "已从 ".to_string();
    m.push_str(path);
    m.push_str(" 加载 ");
    m.push_str(decimal_string(count).as_str());
    m.push_str(" 条消息为新会话");
    m
}

/// The name of the export file of session `session_id` (`0`: not stored
/// yet, a draft) written at `ts` seconds after the epoch.
pub fn export_file_name(session_id: i64, ts: u64) -> (r: String)
    ensures
        r@ == "session-"@ + (if session_id == 0 {
            "draft"@
        } else {
            signed_decimal(session_id as int)
        }) + "-"@ + decimal(ts as nat) + ".json"@,
{
    let mut m = "session-".to_string();
    if session_id == 0 {
        m.push_str("draft");
    } else {
        m.push_str(signed_decimal_string(session_id).as_str());
    }
    m.push_str("-");
    m.push_str(decimal_u64(ts).as_str());
    m.push_str(".json");
    m
}

/// The notice after exporting `count` messages to `path`.
pub fn exported_notice(count: usize, path: &str) -> (r: String)
    ensures
        r@ == "已导出 "@ + decimal(count as nat) + " 条消息到 "@ + path@ + "（/load 该文件可还原）"@,
{
    let mut m = "已导出 ".to_string();
    m.push_str(decimal_string(count).as_str());
    m.push_str(" 条消息到 ");
    m.push_str(path);
    m.push_str("（/load 该文件可还原）");
    m
}

} // verus!
