//! Texts around a review round: the note on a graded question given to the
//! question generator, the request for the round's summary, and the summary
//! shown to the student.
use vstd::prelude::*;
use crate::palette::{signed_decimal, signed_decimal_string};
use crate::commands::{remove_all, replace_all};
use crate::text::{
    chars_of, chars_of_all, decimal, decimal_string, join, join_chars, split_ws, string_of, trim, trim_str, views,
    ws_tokens,
};

verus! {

/// `（s/100）` for a score, nothing without one.
pub open spec fn score_suffix(score: Option<i64>) -> Seq<char> {
    match score {
        Some(s) => "（"@ + signed_decimal(s as int) + "/100）"@,
        None => Seq::empty(),
    }
}

fn push_score_suffix(out: &mut String, score: Option<i64>)
    ensures
        final(out)@ == old(out)@ + score_suffix(score),
{
    match score {
        Some(s) => {
            out.push_str("（");
            out.push_str(signed_decimal_string(s).as_str());
            out.push_str("/100）");
        },
        None => {
            proof {
                assert(old(out)@ + Seq::<char>::empty() =~= old(out)@);
            }
        },
    }
}

fn joined(parts: &[String], sep: &str) -> (r: String)
    ensures
        r@ == join(views(parts@), sep@),
{
    let ps = chars_of_all(parts);
    let s = chars_of(sep);
    string_of(join_chars(ps.as_slice(), s.as_slice()).as_slice())
}

/// How a question of this round went, for the generator of the next one:
/// right or wrong, the score out of 100 in brackets (empty brackets
/// without a score), and the missing points.
pub open spec fn grading_note_spec(correct: bool, score: Option<i64>, missing: Seq<Seq<char>>) -> Seq<char> {
    (if correct {
        "答对"@
    } else {
        "答错"@
    }) + "（"@ + match score {
        Some(s) => signed_decimal(s as int) + "/100"@,
        None => Seq::empty(),
    } + "）"@ + if missing.len() == 0 {
        Seq::empty()
    } else {
        "，缺失: "@ + join(missing, "；"@)
    }
}

pub fn grading_note(correct: bool, score: Option<i64>, missing: &[String]) -> (r: String)
    ensures
        r@ == grading_note_spec(correct, score, views(missing@)),
{
    let mut out = if correct {
        "答对".to_string()
    } else {
        "答错".to_string()
    };
    out.push_str("（");
    match score {
        Some(s) => {
            out.push_str(signed_decimal_string(s).as_str());
            out.push_str("/100");
        },
        None => {},
    }
    out.push_str("）");
    if missing.len() > 0 {
        out.push_str("，缺失: ");
        out.push_str(joined(missing, "；").as_str());
    }
    out
}

/// One answered question of the round, as the summary request shows it.
#[derive(Debug, Clone)]
pub struct QuestionRow {
    /// The concept's name (`?` when unknown).
    pub concept: String,
    /// The question text.
    pub question: String,
    pub correct: bool,
    pub score: Option<i64>,
    pub missing: Vec<String>,
}

/// The first 60 characters of a question.
pub open spec fn short_question(q: Seq<char>) -> Seq<char> {
    if q.len() <= 60 {
        q
    } else {
        q.take(60)
    }
}

pub open spec fn missing_lines(missing: Seq<Seq<char>>) -> Seq<char>
    decreases missing.len(),
{
    if missing.len() == 0 {
        Seq::empty()
    } else {
        missing_lines(missing.drop_last()) + "    缺失: "@ + missing.last() + "\n"@
    }
}

/// The line of question number `i` (from 1) and its missing points.
pub open spec fn row_text(r: QuestionRow, i: int) -> Seq<char> {
    (if r.correct {
        "✓"@
    } else {
        "✗"@
    }) + " 概念「"@ + r.concept@ + "」｜Q"@ + decimal(i as nat) + " "@ + short_question(r.question@)
        + score_suffix(r.score) + "\n"@ + missing_lines(views(r.missing@))
}

pub open spec fn rows_text(rows: Seq<QuestionRow>) -> Seq<char>
    decreases rows.len(),
{
    if rows.len() == 0 {
        Seq::empty()
    } else {
        rows_text(rows.drop_last()) + row_text(rows.last(), rows.len() as int)
    }
}

pub open spec fn advice_request_tail() -> Seq<char> {
    "\n\n请输出 JSON：\n{\"mastered\": [\"概念名\"], \"consolidate\": [\"概念名\"], \"next\": \"下一步学习建议\"}\n\n要求：\n- mastered：这轮答对、已基本掌握的概念\n- consolidate：答错或缺失要点的概念\n- next：针对 consolidate 给出具体下一步（先补哪个概念、读哪类笔记、做什么练习），1~3 句，不要空话"@
}

/// The request for the round's summary: the course, one line per question
/// (mark, concept, number, the question's first 60 characters, score) with
/// its missing points, and the JSON shape wanted back.
pub open spec fn advice_request_spec(course: Seq<char>, rows: Seq<QuestionRow>) -> Seq<char> {
    "你是《"@ + course + "》课程的学习导师。学生刚做完一轮复习，结果如下：\n"@ + rows_text(rows)
        + advice_request_tail()
}

fn push_short(out: &mut String, q: &str)
    ensures
        final(out)@ == old(out)@ + short_question(q@),
{
    let qc = chars_of(q);
    let mut k: usize = 0;
    let ghost before_q = out@;
    while k < qc.len() && k < 60
        invariant
            k <= qc.len(),
            k <= 60,
            out@ == before_q + qc@.take(k as int),
        decreases qc.len() - k,
    {
        out.push(qc[k]);
        proof {
            assert(qc@.take(k + 1) =~= qc@.take(k as int).push(qc@[k as int]));
        }
        k = k + 1;
    }
    proof {
        if qc.len() <= 60 {
            assert(qc@.take(qc.len() as int) =~= qc@);
        }
    }
}

fn push_missing_lines(out: &mut String, missing: &[String])
    ensures
        final(out)@ == old(out)@ + missing_lines(views(missing@)),
{
    let ghost before_m = out@;
    let mut j: usize = 0;
    while j < missing.len()
        invariant
            j <= missing.len(),
            out@ == before_m + missing_lines(views(missing@).take(j as int)),
        decreases missing.len() - j,
    {
        out.push_str("    缺失: ");
        out.push_str(missing[j].as_str());
        out.push_str("\n");
        proof {
            assert(views(missing@).take(j + 1).drop_last() =~= views(missing@).take(j as int));
        }
        j = j + 1;
    }
    proof {
        assert(views(missing@).take(missing.len() as int) =~= views(missing@));
    }
}

#[verifier::spinoff_prover]
fn push_row(out: &mut String, r: &QuestionRow, i: usize)
    ensures
        final(out)@ == old(out)@ + row_text(*r, i as int),
{
    if r.correct {
        out.push_str("✓");
    } else {
        out.push_str("✗");
    }
    out.push_str(" 概念「");
    out.push_str(r.concept.as_str());
    out.push_str("」｜Q");
    out.push_str(decimal_string(i).as_str());
    out.push_str(" ");
    push_short(out, r.question.as_str());
    push_score_suffix(out, r.score);
    out.push_str("\n");
    push_missing_lines(out, r.missing.as_slice());
}

/// The request for the summary of a review round.
pub fn advice_request(course: &str, rows: &[QuestionRow]) -> (r: String)
    requires
        rows.len() < usize::MAX,
    ensures
        r@ == advice_request_spec(course@, rows@),
{
    let mut out = "你是《".to_string();
    out.push_str(course);
    out.push_str("》课程的学习导师。学生刚做完一轮复习，结果如下：\n");
    let ghost head = out@;
    let mut i: usize = 0;
    while i < rows.len()
        invariant
            i <= rows.len(),
            rows.len() < usize::MAX,
            out@ == head + rows_text(rows@.take(i as int)),
        decreases rows.len() - i,
    {
        push_row(&mut out, &rows[i], i + 1);
        proof {
            assert(rows@.take(i + 1).drop_last() =~= rows@.take(i as int));
        }
        i = i + 1;
    }
    proof {
        assert(rows@.take(rows.len() as int) =~= rows@);
    }
    out.push_str(
        "\n\n请输出 JSON：\n{\"mastered\": [\"概念名\"], \"consolidate\": [\"概念名\"], \"next\": \"下一步学习建议\"}\n\n要求：\n- mastered：这轮答对、已基本掌握的概念\n- consolidate：答错或缺失要点的概念\n- next：针对 consolidate 给出具体下一步（先补哪个概念、读哪类笔记、做什么练习），1~3 句，不要空话",
    );
    out
}

/// The summary shown after a round: what is mastered, what needs work, and
/// the next step, each only when present.
pub open spec fn advice_text_spec(mastered: Seq<Seq<char>>, consolidate: Seq<Seq<char>>, next: Option<Seq<char>>) -> Seq<char> {
    "── 复习小结 ──"@ + (if mastered.len() == 0 {
        Seq::empty()
    } else {
        "\n✓ 已掌握: "@ + join(mastered, "、"@)
    }) + (if consolidate.len() == 0 {
        Seq::empty()
    } else {
        "\n△ 需巩固: "@ + join(consolidate, "、"@)
    }) + match next {
        Some(n) => if trim(n).len() == 0 {
            Seq::empty()
        } else {
            "\n→ 下一步: "@ + n
        },
        None => Seq::empty(),
    }
}

pub fn advice_text(mastered: &[String], consolidate: &[String], next: &Option<String>) -> (r: String)
    ensures
        r@ == advice_text_spec(
            views(mastered@),
            views(consolidate@),
            match next {
                Some(n) => Some(n@),
                None => None,
            },
        ),
{
    let mut out = "── 复习小结 ──".to_string();
    if mastered.len() > 0 {
        out.push_str("\n✓ 已掌握: ");
        out.push_str(joined(mastered, "、").as_str());
    }
    if consolidate.len() > 0 {
        out.push_str("\n△ 需巩固: ");
        out.push_str(joined(consolidate, "、").as_str());
    }
    match next {
        Some(n) => {
            if chars_of(trim_str(n.as_str()).as_str()).len() > 0 {
                out.push_str("\n→ 下一步: ");
                out.push_str(n.as_str());
            }
        },
        None => {},
    }
    out
}

// ---------------------------------------------------------------------------
// Grading results and the round's card
// ---------------------------------------------------------------------------
/// What becomes of a short-answer grade that arrives.
#[derive(Debug, Clone)]
pub enum GradeOutcome {
    /// It belongs to another question than the current one: dropped, so
    /// that it is not recorded against the wrong question.
    Stale,
    /// Recorded: right from a score of 70 on, with the feedback shown.
    Graded { correct: bool, score: i64, feedback: String, missing: Vec<String> },
    /// Grading failed: the error shown, and the question counts as wrong
    /// with the error as its feedback.
    Failed { error: String, feedback: String },
}

pub open spec fn grade_feedback(score: i64, comment: Option<Seq<char>>) -> Seq<char> {
    "得分: "@ + signed_decimal(score as int) + "/100"@ + match comment {
        Some(c) => " | "@ + c,
        None => Seq::empty(),
    }
}

/// A grade for question `index` while question `current` is shown.
pub fn grade_outcome(
    current: Option<usize>,
    index: usize,
    result: Result<(i64, Vec<String>, Option<String>), String>,
) -> (r: GradeOutcome)
    ensures
        current != Some(index) ==> r is Stale,
        current == Some(index) ==> match result {
            Ok((score, missing, comment)) => r matches GradeOutcome::Graded { correct, score: s, feedback, missing: m }
                && correct == (score >= 70) && s == score && feedback@ == grade_feedback(
                score,
                match comment {
                    Some(c) => Some(c@),
                    None => None,
                },
            ) && views(m@) == views(missing@),
            Err(e) => r matches GradeOutcome::Failed { error, feedback } && error@ == "批改失败: "@ + e@
                && feedback@ == e@,
        },
{
    match current {
        Some(c) => {
            if c != index {
                return GradeOutcome::Stale;
            }
        },
        None => {
            return GradeOutcome::Stale;
        },
    }
    match result {
        Ok((score, missing, comment)) => {
            let mut feedback = "得分: ".to_string();
            feedback.push_str(signed_decimal_string(score).as_str());
            feedback.push_str("/100");
            match &comment {
                Some(c) => {
                    feedback.push_str(" | ");
                    feedback.push_str(c.as_str());
                },
                None => {},
            }
            GradeOutcome::Graded { correct: score >= 70, score, feedback, missing }
        },
        Err(e) => {
            let mut error = "批改失败: ".to_string();
            error.push_str(e.as_str());
            GradeOutcome::Failed { error, feedback: e }
        },
    }
}

/// A reviewed question on the round's card.
#[derive(Debug, Clone)]
pub struct SummaryRow {
    pub correct: bool,
    pub score: Option<i64>,
    /// The concept the question tests, when known.
    pub concept: Option<String>,
    pub question: String,
    pub missing: Vec<String>,
}

/// The topic of a question without a concept: its text without code
/// fences, white space collapsed, at most 40 characters.
pub open spec fn fallback_topic(q: Seq<char>) -> Seq<char> {
    let t = replace_all(
        replace_all(replace_all(q, "```rust"@, Seq::empty()), "```c"@, Seq::empty()),
        "```"@,
        Seq::empty(),
    );
    let j = join(ws_tokens(t), " "@);
    if j.len() <= 40 {
        j
    } else {
        j.take(40)
    }
}

pub open spec fn topic_of(r: SummaryRow) -> Seq<char> {
    match r.concept {
        Some(c) => c@,
        None => fallback_topic(r.question@),
    }
}

pub open spec fn summary_row_text(r: SummaryRow, i: int) -> Seq<char> {
    "\n\n"@ + (if r.correct {
        "✓"@
    } else {
        "✗"@
    }) + " **Q"@ + decimal(i as nat) + "** 【"@ + topic_of(r) + "】"@ + score_suffix(r.score) + if r.missing@.len()
        == 0 {
        Seq::empty()
    } else {
        "\n\n   缺失: "@ + join(views(r.missing@), "；"@)
    }
}

pub open spec fn summary_rows_text(rows: Seq<SummaryRow>) -> Seq<char>
    decreases rows.len(),
{
    if rows.len() == 0 {
        Seq::empty()
    } else {
        summary_rows_text(rows.drop_last()) + summary_row_text(rows.last(), rows.len() as int)
    }
}

pub open spec fn count_correct(rows: Seq<SummaryRow>) -> nat
    decreases rows.len(),
{
    if rows.len() == 0 {
        0
    } else {
        count_correct(rows.drop_last()) + if rows.last().correct {
            1nat
        } else {
            0nat
        }
    }
}

/// The card of a finished (or left) round: right answers out of `total`
/// questions with the rate as `rate_text` (a percentage without decimals),
/// then one paragraph per answered question with its mark, number, topic,
/// score and missing points.
pub open spec fn summary_md_spec(rows: Seq<SummaryRow>, total: usize, rate_text: Seq<char>) -> Seq<char> {
    "## 复习完成\n\n**正确 "@ + decimal(count_correct(rows)) + "/"@ + decimal(total as nat) + "** · 正确率 "@ + rate_text
        + "%\n"@ + summary_rows_text(rows)
}

fn fallback_topic_exec(q: &str) -> (r: String)
    ensures
        r@ == fallback_topic(q@),
{
    proof {
        reveal_strlit("```rust");
        reveal_strlit("```c");
        reveal_strlit("```");
    }
    let a = remove_all(chars_of(q).as_slice(), chars_of("```rust").as_slice());
    let b = remove_all(a.as_slice(), chars_of("```c").as_slice());
    let c = remove_all(b.as_slice(), chars_of("```").as_slice());
    let toks = split_ws(c.as_slice());
    let j = join_chars(toks.as_slice(), chars_of(" ").as_slice());
    let mut out: Vec<char> = Vec::new();
    let mut k: usize = 0;
    while k < j.len() && k < 40
        invariant
            k <= j.len(),
            k <= 40,
            out@ == j@.take(k as int),
        decreases j.len() - k,
    {
        out.push(j[k]);
        proof {
            assert(j@.take(k + 1) =~= j@.take(k as int).push(j@[k as int]));
        }
        k = k + 1;
    }
    proof {
        if j.len() <= 40 {
            assert(j@.take(j.len() as int) =~= j@);
        }
    }
    string_of(out.as_slice())
}

#[verifier::spinoff_prover]
fn push_summary_row(md: &mut String, r: &SummaryRow, i: usize)
    ensures
        final(md)@ == old(md)@ + summary_row_text(*r, i as int),
{
    md.push_str("\n\n");
    if r.correct {
        md.push_str("✓");
    } else {
        md.push_str("✗");
    }
    md.push_str(" **Q");
    md.push_str(decimal_string(i).as_str());
    md.push_str("** 【");
    match &r.concept {
        Some(c) => md.push_str(c.as_str()),
        None => md.push_str(fallback_topic_exec(r.question.as_str()).as_str()),
    }
    md.push_str("】");
    push_score_suffix(md, r.score);
    if r.missing.len() > 0 {
        md.push_str("\n\n   缺失: ");
        md.push_str(joined(r.missing.as_slice(), "；").as_str());
    }
}

/// The card of a review round (see `summary_md_spec`).
pub fn review_summary_md(rows: &[SummaryRow], total: usize, rate_text: &str) -> (r: String)
    requires
        rows.len() < usize::MAX,
    ensures
        r@ == summary_md_spec(rows@, total, rate_text@),
{
    let mut n: usize = 0;
    let mut i: usize = 0;
    while i < rows.len()
        invariant
            i <= rows.len(),
            n == count_correct(rows@.take(i as int)),
            n <= i,
        decreases rows.len() - i,
    {
        proof {
            assert(rows@.take(i + 1).drop_last() =~= rows@.take(i as int));
        }
        if rows[i].correct {
            n = n + 1;
        }
        i = i + 1;
    }
    proof {
        assert(rows@.take(rows.len() as int) =~= rows@);
    }
    let mut md = "## 复习完成\n\n**正确 ".to_string();
    md.push_str(decimal_string(n).as_str());
    md.push_str("/");
    md.push_str(decimal_string(total).as_str());
    md.push_str("** · 正确率 ");
    md.push_str(rate_text);
    md.push_str("%\n");
    let ghost head = md@;
    let mut k: usize = 0;
    while k < rows.len()
        invariant
            k <= rows.len(),
            rows.len() < usize::MAX,
            md@ == head + summary_rows_text(rows@.take(k as int)),
        decreases rows.len() - k,
    {
        push_summary_row(&mut md, &rows[k], k + 1);
        proof {
            assert(rows@.take(k + 1).drop_last() =~= rows@.take(k as int));
        }
        k = k + 1;
    }
    proof {
        assert(rows@.take(rows.len() as int) =~= rows@);
    }
    md
}

/// How many of `kinds` are `want` (`true`: a choice question).
pub open spec fn count_kind(kinds: Seq<bool>, want: bool) -> nat
    decreases kinds.len(),
{
    if kinds.len() == 0 {
        0
    } else {
        count_kind(kinds.drop_last(), want) + if kinds.last() == want {
            1nat
        } else {
            0nat
        }
    }
}

/// The next question to generate in a review round.
#[derive(Debug, Clone, Copy, PartialEq, Eq)]
pub struct NextQuestion {
    /// Its position in the round (the number of questions so far).
    pub index: usize,
    /// Choice questions so far.
    pub done_choice: usize,
    /// Short-answer questions so far.
    pub done_short: usize,
}

/// Whether to generate another question of a round of `planned` questions
/// whose questions so far are `kinds` (`true`: choice, `false`: short
/// answer): not while one is being generated, nor once the plan is full.
/// Otherwise its position and the counts of each kind so far, from which
/// the kind of the next one is picked.
pub fn next_question(next_pending: bool, kinds: &[bool], planned: usize) -> (r: Option<NextQuestion>)
    ensures
        (next_pending || kinds@.len() >= planned) ==> r is None,
        !(next_pending || kinds@.len() >= planned) ==> (r matches Some(q) && q.index == kinds@.len()
            && q.done_choice == count_kind(kinds@, true) && q.done_short == count_kind(kinds@, false)),
{
    if next_pending || kinds.len() >= planned {
        return None;
    }
    let mut choice: usize = 0;
    let mut short: usize = 0;
    let mut i: usize = 0;
    while i < kinds.len()
        invariant
            i <= kinds@.len(),
            choice == count_kind(kinds@.take(i as int), true),
            short == count_kind(kinds@.take(i as int), false),
            choice + short == i,
        decreases kinds.len() - i,
    {
        assert(kinds@.take(i + 1).drop_last() =~= kinds@.take(i as int));
        if kinds[i] {
            choice = choice + 1;
        } else {
            short = short + 1;
        }
        i = i + 1;
    }
    assert(kinds@.take(kinds@.len() as int) =~= kinds@);
    Some(NextQuestion { index: kinds.len(), done_choice: choice, done_short: short })
}

} // verus!
