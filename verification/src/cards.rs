//! Guidance cards rendered through the Markdown pipeline: the welcome card
//! of an empty library, the course context card, and the empty-state cards
//! of `/review` and `/outline`.
use vstd::prelude::*;
use crate::events::{Entry, EntryView};
use crate::text::{append_chars, chars_of, contains_chars, contains_sub, decimal, decimal_chars, join};

verus! {

/// Engine error text that marks a course without notes.
pub const EMPTY_COURSE_MARKER: &'static str = "还没有笔记";

/// Engine error text that marks a course whose concepts are not extracted yet.
pub const NO_CONCEPT_MARKER: &'static str = "还没有概念";

pub open spec fn lines_view(lines: Seq<&str>) -> Seq<Seq<char>> {
    lines.map_values(|l: &str| l@)
}

/// The lines joined with `\n`.
pub fn join_lines(lines: &[&str]) -> (r: String)
    ensures
        r@ == join(lines_view(lines@), "\n"@),
{
    let mut r = String::new();
    let mut i: usize = 0;
    while i < lines.len()
        invariant
            i <= lines.len(),
            r@ == join(lines_view(lines@).take(i as int), "\n"@),
        decreases lines.len() - i,
    {
        assert(lines_view(lines@).take(i + 1).drop_last() =~= lines_view(lines@).take(i as int));
        if i > 0 {
            r.push_str("\n");
        }
        r.push_str(lines[i]);
        i = i + 1;
        proof {
            if i == 1 {
                assert(lines_view(lines@).take(1) =~= seq![lines@[0]@]);
            }
        }
    }
    assert(lines_view(lines@).take(lines.len() as int) =~= lines_view(lines@));
    r
}

pub open spec fn welcome_lines() -> Seq<Seq<char>> {
    seq![
        "# Welcome to StudyPilot"@,
        ""@,
        "Learn from your own materials."@,
        ""@,
        "Get started:"@,
        ""@,
        "**1. Create a course** — `/course -new <course name>`"@,
        ""@,
        "**2. Import your materials** — `/import --dir <path>`"@,
        ""@,
        "**3. Ask questions** about your materials"@,
        ""@,
        "**4. Review what you've learned** — `/review` · `/review-map`"@,
        ""@,
        "Tip: Type `/help` anytime to see all commands."@,
    ]
}

/// Welcome card of the first start with an empty library.
pub fn welcome_guide() -> (r: String)
    ensures
        r@ == join(welcome_lines(), "\n"@),
{
    let lines = [
        "# Welcome to StudyPilot",
        "",
        "Learn from your own materials.",
        "",
        "Get started:",
        "",
        "**1. Create a course** — `/course -new <course name>`",
        "",
        "**2. Import your materials** — `/import --dir <path>`",
        "",
        "**3. Ask questions** about your materials",
        "",
        "**4. Review what you've learned** — `/review` · `/review-map`",
        "",
        "Tip: Type `/help` anytime to see all commands.",
    ];
    assert(lines_view(lines@) =~= welcome_lines());
    join_lines(&lines)
}

/// Lines of the course context card.  No materials: an import hint.  With
/// materials: the statistics line, then either the last session to
/// continue or the get-started actions.
pub open spec fn summary_lines(
    course: Seq<char>,
    notes: nat,
    concepts: nat,
    weak: nat,
    last_session: Option<Seq<char>>,
) -> Seq<Seq<char>> {
    let head = seq!["# "@ + course, ""@];
    if notes == 0 && concepts == 0 {
        head + seq![
            "0 notes · 0 concepts"@,
            ""@,
            "No materials yet."@,
            ""@,
            "`/import --dir <path>` to add your first material."@,
        ]
    } else {
        let stats = decimal(notes) + " notes · "@ + decimal(concepts) + " concepts · △ "@ + decimal(
            weak,
        ) + " need reinforcement"@;
        match last_session {
            Some(title) => head + seq![
                stats,
                ""@,
                "**Continue:** "@ + title,
                ""@,
                "`/review` · `/review-map` · `/outline` · `/import`"@,
            ],
            None => head + seq![
                stats,
                ""@,
                "Your course is ready."@,
                ""@,
                "**Ask** about your materials"@,
                "`/review` to practice"@,
                "`/outline` to view your knowledge map"@,
                "`/import` to add more materials"@,
            ],
        }
    }
}

fn owned_line(s: &str) -> (r: Vec<char>)
    ensures
        r@ == s@,
{
    crate::text::chars_of(s)
}

/// Course context card after entering or creating a course; `weak` is the
/// number of concepts that need reinforcement, and `last_session` the title
/// of the most recent session (no Continue line without one).
pub fn course_summary(
    course: &str,
    notes: usize,
    concepts: usize,
    weak: usize,
    last_session: Option<&str>,
) -> (r: String)
    ensures
        r@ == join(
            summary_lines(
                course@,
                notes as nat,
                concepts as nat,
                weak as nat,
                match last_session {
                    Some(t) => Some(t@),
                    None => None,
                },
            ),
            "\n"@,
        ),
{
    let mut lines: Vec<Vec<char>> = Vec::new();
    let mut h = owned_line("# ");
    h.extend_from_slice(crate::text::chars_of(course).as_slice());
    lines.push(h);
    lines.push(Vec::new());
    if notes == 0 && concepts == 0 {
        lines.push(owned_line("0 notes · 0 concepts"));
        lines.push(Vec::new());
        lines.push(owned_line("No materials yet."));
        lines.push(Vec::new());
        lines.push(owned_line("`/import --dir <path>` to add your first material."));
    } else {
        let mut st = decimal_chars(notes);
        st.extend_from_slice(owned_line(" notes · ").as_slice());
        st.extend_from_slice(decimal_chars(concepts).as_slice());
        st.extend_from_slice(owned_line(" concepts · △ ").as_slice());
        st.extend_from_slice(decimal_chars(weak).as_slice());
        st.extend_from_slice(owned_line(" need reinforcement").as_slice());
        lines.push(st);
        lines.push(Vec::new());
        match last_session {
            Some(title) => {
                let mut c = owned_line("**Continue:** ");
                c.extend_from_slice(crate::text::chars_of(title).as_slice());
                lines.push(c);
                lines.push(Vec::new());
                lines.push(owned_line("`/review` · `/review-map` · `/outline` · `/import`"));
            },
            None => {
                lines.push(owned_line("Your course is ready."));
                lines.push(Vec::new());
                lines.push(owned_line("**Ask** about your materials"));
                lines.push(owned_line("`/review` to practice"));
                lines.push(owned_line("`/outline` to view your knowledge map"));
                lines.push(owned_line("`/import` to add more materials"));
            },
        }
    }
    let ghost want = summary_lines(
        course@,
        notes as nat,
        concepts as nat,
        weak as nat,
        match last_session {
            Some(t) => Some(t@),
            None => None,
        },
    );
    proof {
        reveal_strlit("");
        assert(""@ =~= Seq::<char>::empty());
    }
    assert(crate::text::vviews(lines@) =~~= want);
    let j = crate::text::join_chars(&lines, &owned_line("\n"));
    crate::text::string_of(&j)
}

pub open spec fn empty_review_lines() -> Seq<Seq<char>> {
    seq![
        "# Nothing to review yet"@,
        ""@,
        "This course doesn't have any materials yet."@,
        ""@,
        "Import learning materials first:"@,
        ""@,
        "`/import --dir <path>`"@,
        ""@,
        "After importing, StudyPilot can build your knowledge map and generate reviews."@,
    ]
}

/// Guidance for `/review` on a course without materials.
pub fn empty_review() -> (r: String)
    ensures
        r@ == join(empty_review_lines(), "\n"@),
{
    let lines = [
        "# Nothing to review yet",
        "",
        "This course doesn't have any materials yet.",
        "",
        "Import learning materials first:",
        "",
        "`/import --dir <path>`",
        "",
        "After importing, StudyPilot can build your knowledge map and generate reviews.",
    ];
    assert(lines_view(lines@) =~= empty_review_lines());
    join_lines(&lines)
}

pub open spec fn empty_outline_lines() -> Seq<Seq<char>> {
    seq![
        "# Nothing to outline yet"@,
        ""@,
        "There is nothing to outline yet."@,
        ""@,
        "Import some learning materials first:"@,
        ""@,
        "`/import --dir <path>`"@,
        ""@,
        "After importing, StudyPilot can build your knowledge map."@,
    ]
}

/// Guidance for `/outline` on a course without materials.
pub fn empty_outline() -> (r: String)
    ensures
        r@ == join(empty_outline_lines(), "\n"@),
{
    let lines = [
        "# Nothing to outline yet",
        "",
        "There is nothing to outline yet.",
        "",
        "Import some learning materials first:",
        "",
        "`/import --dir <path>`",
        "",
        "After importing, StudyPilot can build your knowledge map.",
    ];
    assert(lines_view(lines@) =~= empty_outline_lines());
    join_lines(&lines)
}

/// How a failed review start is shown: a course without notes gets the
/// guidance card, any other failure an error line.
pub fn review_failure_entry(e: &str) -> (r: Entry)
    ensures
        r@ == (if contains_sub(e@, EMPTY_COURSE_MARKER@) {
            EntryView::Markdown(join(empty_review_lines(), "\n"@))
        } else {
            EntryView::Error("出题失败: "@ + e@)
        }),
{
    let cs = chars_of(e);
    if contains_chars(cs.as_slice(), chars_of(EMPTY_COURSE_MARKER).as_slice()) {
        Entry::Markdown(empty_review())
    } else {
        let mut m = "出题失败: ".to_string();
        m.push_str(e);
        Entry::Error(m)
    }
}

/// How a failed learning-map build is shown: a course without notes or
/// without concepts gets the guidance card, any other failure an error line.
pub fn outline_failure_entry(e: &str) -> (r: Entry)
    ensures
        r@ == (if contains_sub(e@, EMPTY_COURSE_MARKER@) || contains_sub(e@, NO_CONCEPT_MARKER@) {
            EntryView::Markdown(join(empty_outline_lines(), "\n"@))
        } else {
            EntryView::Error("复习地图生成失败: "@ + e@)
        }),
{
    let cs = chars_of(e);
    if contains_chars(cs.as_slice(), chars_of(EMPTY_COURSE_MARKER).as_slice()) || contains_chars(
        cs.as_slice(),
        chars_of(NO_CONCEPT_MARKER).as_slice(),
    ) {
        Entry::Markdown(empty_outline())
    } else {
        let mut m = "复习地图生成失败: ".to_string();
        m.push_str(e);
        Entry::Error(m)
    }
}

} // verus!
