//! The three states of storing a chat session: no session yet, one being
//! created (messages wait in a buffer), and a ready one (messages go to its
//! writer in order).
use vstd::prelude::*;
use crate::events::{Entry, EntryView};
use crate::note_admin::{course_id_named, find_course_id};
use crate::refs::{msg_views, ChatMessage, ChatMessageView};
use crate::text::{chars_of, decimal, decimal_string, string_of};

verus! {

/// Where storing the chat stands.
#[derive(Debug)]
pub enum SessionPersistence {
    /// No session yet: the first message creates one.
    NoSession,
    /// The session is being created; these messages wait for it.
    Pending { buffered: Vec<ChatMessage> },
    /// The session exists; messages go to its writer.
    Ready { id: i64 },
}

pub enum PersistenceView {
    NoSession,
    Pending(Seq<ChatMessageView>),
    Ready(i64),
}

impl View for SessionPersistence {
    type V = PersistenceView;

    open spec fn view(&self) -> PersistenceView {
        match self {
            SessionPersistence::NoSession => PersistenceView::NoSession,
            SessionPersistence::Pending { buffered } => PersistenceView::Pending(msg_views(buffered@)),
            SessionPersistence::Ready { id } => PersistenceView::Ready(*id),
        }
    }
}

/// What the owner does with a message handed to storage.
#[derive(Debug)]
pub enum PersistStep {
    /// Create a session with this title in this course; the message waits.
    Create { title: String, course_id: Option<i64> },
    /// The message waits for the session being created.
    Buffered,
    /// Write the message to session `id`.
    Send { id: i64, msg: ChatMessage },
}

pub enum StepView {
    Create(Seq<char>, Option<i64>),
    Buffered,
    Send(i64, ChatMessageView),
}

impl View for PersistStep {
    type V = StepView;

    open spec fn view(&self) -> StepView {
        match self {
            PersistStep::Create { title, course_id } => StepView::Create(title@, *course_id),
            PersistStep::Buffered => StepView::Buffered,
            PersistStep::Send { id, msg } => StepView::Send(*id, msg@),
        }
    }
}

/// Title of a session created for a message: the first 20 characters of
/// its text, `(空)` without text.
pub open spec fn session_title(m: ChatMessageView) -> Seq<char> {
    let s = match m.content {
        Some(c) => c,
        None => "(空)"@,
    };
    if s.len() <= 20 {
        s
    } else {
        s.take(20)
    }
}

/// One message handed to storage, in state `st`, while the current course
/// has id `cid`: the next state and what to do.
pub open spec fn persist_spec(st: PersistenceView, m: ChatMessageView, cid: Option<i64>) -> (PersistenceView, StepView) {
    match st {
        PersistenceView::NoSession => (PersistenceView::Pending(seq![m]), StepView::Create(session_title(m), cid)),
        PersistenceView::Pending(b) => (PersistenceView::Pending(b.push(m)), StepView::Buffered),
        PersistenceView::Ready(id) => (st, StepView::Send(id, m)),
    }
}

/// The state after handing `ms` to storage one by one.
pub open spec fn persist_all(st: PersistenceView, ms: Seq<ChatMessageView>, cid: Option<i64>) -> PersistenceView
    decreases ms.len(),
{
    if ms.len() == 0 {
        st
    } else {
        persist_spec(persist_all(st, ms.drop_last(), cid), ms.last(), cid).0
    }
}

/// The steps of handing `ms` to storage one by one.
pub open spec fn persist_steps(st: PersistenceView, ms: Seq<ChatMessageView>, cid: Option<i64>) -> Seq<StepView>
    decreases ms.len(),
{
    if ms.len() == 0 {
        Seq::empty()
    } else {
        persist_steps(st, ms.drop_last(), cid).push(
            persist_spec(persist_all(st, ms.drop_last(), cid), ms.last(), cid).1,
        )
    }
}

/// The session was created: the state, and the messages to write to it in order.
pub open spec fn ready_spec(st: PersistenceView, id: i64) -> (PersistenceView, Seq<ChatMessageView>) {
    match st {
        PersistenceView::Pending(b) => (PersistenceView::Ready(id), b),
        _ => (st, Seq::empty()),
    }
}

/// The notice when creating the session failed with `err` while `n`
/// messages waited.
pub open spec fn create_failed_message(err: Seq<char>, n: nat) -> Seq<char> {
    "会话创建失败: "@ + err + "\n本次的 "@ + decimal(n) + " 条消息仅保存在内存会话中，不会持久化；可 /new 后重新发送重试"@
}

fn title_of(m: &ChatMessage) -> (r: String)
    ensures
        r@ == session_title(m@),
{
    let s = match &m.content {
        Some(c) => chars_of(c.as_str()),
        None => chars_of("(空)"),
    };
    if s.len() <= 20 {
        string_of(s.as_slice())
    } else {
        let mut t: Vec<char> = Vec::new();
        let mut i: usize = 0;
        while i < 20
            invariant
                i <= 20,
                20 < s@.len(),
                t@ == s@.take(i as int),
            decreases 20 - i,
        {
            t.push(s[i]);
            proof {
                assert(s@.take(i + 1) =~= s@.take(i as int).push(s@[i as int]));
            }
            i = i + 1;
        }
        string_of(t.as_slice())
    }
}

impl SessionPersistence {
    /// Hands one message to storage; `courses` and `course` give the course
    /// a new session belongs to (the first course of that name).
    pub fn persist(&mut self, msg: ChatMessage, courses: &[(i64, String)], course: &str) -> (r: PersistStep)
        ensures
            (final(self)@, r@) == persist_spec(old(self)@, msg@, course_id_named(courses@, course@)),
    {
        match self {
            SessionPersistence::NoSession => {
                let title = title_of(&msg);
                let course_id = find_course_id(courses, course);
                let mut buffered: Vec<ChatMessage> = Vec::new();
                buffered.push(msg);
                proof {
                    assert(msg_views(buffered@) =~= seq![msg@]);
                }
                *self = SessionPersistence::Pending { buffered };
                PersistStep::Create { title, course_id }
            },
            SessionPersistence::Pending { buffered } => {
                let ghost b0 = buffered@;
                buffered.push(msg);
                proof {
                    assert(msg_views(buffered@) =~= msg_views(b0).push(msg@));
                }
                PersistStep::Buffered
            },
            SessionPersistence::Ready { id } => PersistStep::Send { id: *id, msg },
        }
    }

    /// Session `id` was created: the waiting messages, to write to it in
    /// order.  Outside the creating state nothing changes.
    pub fn on_ready(&mut self, id: i64) -> (r: Vec<ChatMessage>)
        ensures
            (final(self)@, msg_views(r@)) == ready_spec(old(self)@, id),
    {
        match self {
            SessionPersistence::Pending { buffered } => {
                let mut out: Vec<ChatMessage> = Vec::new();
                std::mem::swap(&mut out, buffered);
                *self = SessionPersistence::Ready { id };
                out
            },
            _ => {
                let out: Vec<ChatMessage> = Vec::new();
                proof {
                    assert(msg_views(out@) =~= Seq::<ChatMessageView>::empty());
                }
                out
            },
        }
    }

    /// Creating the session failed: back to no session, and the notice of
    /// how many messages stay unstored.  Outside the creating state
    /// nothing happens.
    pub fn on_create_failed(&mut self, err: &str) -> (r: Option<String>)
        ensures
            match old(self)@ {
                PersistenceView::Pending(b) => {
                    &&& final(self)@ == PersistenceView::NoSession
                    &&& r matches Some(m) && m@ == create_failed_message(err@, b.len())
                },
                _ => final(self)@ == old(self)@ && r is None,
            },
    {
        let n = match self {
            SessionPersistence::Pending { buffered } => buffered.len(),
            _ => {
                return None;
            },
        };
        *self = SessionPersistence::NoSession;
        let mut m = "会话创建失败: ".to_string();
        m.push_str(err);
        m.push_str("\n本次的 ");
        m.push_str(decimal_string(n).as_str());
        m.push_str(" 条消息仅保存在内存会话中，不会持久化；可 /new 后重新发送重试");
        Some(m)
    }

    /// The stored session, once it is ready.
    pub fn ready_id(&self) -> (r: Option<i64>)
        ensures
            r == (match self@ {
                PersistenceView::Ready(id) => Some(id),
                _ => None,
            }),
    {
        match self {
            SessionPersistence::Ready { id } => Some(*id),
            _ => None,
        }
    }

    /// `/rename <title>` of the chat's session: the session to rename, or
    /// why not (no title; the session is not stored yet).
    pub fn rename_target(&self, title: &str) -> (r: Result<i64, String>)
        ensures
            title@.len() == 0 ==> (r matches Err(m) && m@ == "用法: /rename <新标题>"@),
            title@.len() > 0 ==> match self@ {
                PersistenceView::Ready(id) => r == Ok::<i64, String>(id),
                _ => r matches Err(m) && m@ == "当前会话尚未持久化，发一条消息后再改名"@,
            },
    {
        if chars_of(title).len() == 0 {
            return Err("用法: /rename <新标题>".to_string());
        }
        match self {
            SessionPersistence::Ready { id } => Ok(*id),
            _ => Err("当前会话尚未持久化，发一条消息后再改名".to_string()),
        }
    }
}

/// The report of renaming the chat's session to `title`, and whether the
/// session list is refreshed.
pub fn title_renamed_report(ok: bool, title: &str) -> (r: (Entry, bool))
    ensures
        ok ==> r.0@ == EntryView::Info("会话已重命名为: "@ + title@) && r.1,
        !ok ==> r.0@ == EntryView::Error("重命名失败：会话不存在"@) && !r.1,
{
    if ok {
        let mut m = "会话已重命名为: ".to_string();
        m.push_str(title);
        (Entry::Info(m), true)
    } else {
        (Entry::Error("重命名失败：会话不存在".to_string()), false)
    }
}

/// Handing messages to storage from no session: the session is asked for
/// once, by the first message, and every later message waits in order; when
/// the session is ready it receives exactly these messages, in the order
/// they were handed over, and later messages go straight to it.
pub proof fn law_messages_reach_the_session_in_order(
    ms: Seq<ChatMessageView>,
    cid: Option<i64>,
    id: i64,
    later: ChatMessageView,
)
    requires
        ms.len() > 0,
    ensures
        persist_all(PersistenceView::NoSession, ms, cid) == PersistenceView::Pending(ms),
        persist_steps(PersistenceView::NoSession, ms, cid).len() == ms.len(),
        persist_steps(PersistenceView::NoSession, ms, cid)[0] == StepView::Create(session_title(ms[0]), cid),
        forall|k: int|
            1 <= k < ms.len() ==> #[trigger] persist_steps(PersistenceView::NoSession, ms, cid)[k] == StepView::Buffered,
        ready_spec(persist_all(PersistenceView::NoSession, ms, cid), id) == (PersistenceView::Ready(id), ms),
        persist_spec(PersistenceView::Ready(id), later, cid) == (PersistenceView::Ready(id), StepView::Send(id, later)),
    decreases ms.len(),
{
    let st = PersistenceView::NoSession;
    if ms.len() == 1 {
        assert(ms.drop_last() =~= Seq::<ChatMessageView>::empty());
        assert(seq![ms.last()] =~= ms);
        assert(persist_all(st, ms.drop_last(), cid) == st);
        assert(persist_steps(st, ms.drop_last(), cid) =~= Seq::<StepView>::empty());
        assert(persist_steps(st, ms, cid) =~= seq![StepView::Create(session_title(ms[0]), cid)]);
    } else {
        let front = ms.drop_last();
        law_messages_reach_the_session_in_order(front, cid, id, later);
        assert(front.push(ms.last()) =~= ms);
        assert(front[0] == ms[0]);
        let steps = persist_steps(st, ms, cid);
        assert(steps == persist_steps(st, front, cid).push(StepView::Buffered));
        assert forall|k: int| 1 <= k < ms.len() implies #[trigger] steps[k] == StepView::Buffered by {
            if k < front.len() {
                assert(steps[k] == persist_steps(st, front, cid)[k]);
            }
        }
    }
}

} // verus!
