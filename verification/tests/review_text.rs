use studypilot::review_text::{next_question, NextQuestion};
use studypilot::review_text::{
    advice_request, advice_text, grade_outcome, grading_note, review_summary_md, GradeOutcome,
    QuestionRow, SummaryRow,
};

#[test]
fn grading_notes() {
    assert_eq!(grading_note(true, Some(90), &[]), "答对（90/100）");
    assert_eq!(grading_note(false, None, &["A".to_string(), "B".to_string()]), "答错（），缺失: A；B");
}

#[test]
fn advice_request_lists_each_question() {
    let long: String = "问".repeat(70);
    let rows = vec![
        QuestionRow { concept: "页表".into(), question: "什么是页表".into(), correct: true, score: None, missing: vec![] },
        QuestionRow { concept: "?".into(), question: long.clone(), correct: false, score: Some(40), missing: vec!["TLB".into()] },
    ];
    let r = advice_request("操作系统", &rows);
    let expected_rows = format!(
        "✓ 概念「页表」｜Q1 什么是页表\n✗ 概念「?」｜Q2 {}（40/100）\n    缺失: TLB\n",
        "问".repeat(60)
    );
    assert!(r.starts_with(&format!("你是《操作系统》课程的学习导师。学生刚做完一轮复习，结果如下：\n{expected_rows}\n\n请输出 JSON：\n{{\"mastered\"")));
    assert!(r.ends_with("1~3 句，不要空话"));
}

#[test]
fn advice_text_shows_present_parts_only() {
    assert_eq!(advice_text(&[], &[], &None), "── 复习小结 ──");
    assert_eq!(
        advice_text(&["a".to_string(), "b".to_string()], &["c".to_string()], &Some("读笔记".to_string())),
        "── 复习小结 ──\n✓ 已掌握: a、b\n△ 需巩固: c\n→ 下一步: 读笔记"
    );
    assert_eq!(advice_text(&[], &["c".to_string()], &Some("  ".to_string())), "── 复习小结 ──\n△ 需巩固: c");
}

#[test]
fn stale_grades_are_dropped() {
    assert!(matches!(grade_outcome(Some(2), 1, Ok((90, vec![], None))), GradeOutcome::Stale));
    assert!(matches!(grade_outcome(None, 0, Ok((90, vec![], None))), GradeOutcome::Stale));
}

#[test]
fn grades_from_seventy_are_right() {
    match grade_outcome(Some(1), 1, Ok((70, vec!["TLB".into()], Some("基本正确".into())))) {
        GradeOutcome::Graded { correct, score, feedback, missing } => {
            assert!(correct);
            assert_eq!(score, 70);
            assert_eq!(feedback, "得分: 70/100 | 基本正确");
            assert_eq!(missing, vec!["TLB".to_string()]);
        }
        other => panic!("unexpected {other:?}"),
    }
    match grade_outcome(Some(0), 0, Ok((69, vec![], None))) {
        GradeOutcome::Graded { correct, feedback, .. } => {
            assert!(!correct);
            assert_eq!(feedback, "得分: 69/100");
        }
        other => panic!("unexpected {other:?}"),
    }
    match grade_outcome(Some(0), 0, Err("超时".into())) {
        GradeOutcome::Failed { error, feedback } => {
            assert_eq!(error, "批改失败: 超时");
            assert_eq!(feedback, "超时");
        }
        other => panic!("unexpected {other:?}"),
    }
}

#[test]
fn round_card_lists_each_answer() {
    let rows = vec![
        SummaryRow { correct: true, score: None, concept: Some("页表".into()), question: "q".into(), missing: vec![] },
        SummaryRow {
            correct: false,
            score: Some(40),
            concept: None,
            question: "看代码 ```rust\nlet x = 1;\n```  这段   输出什么".into(),
            missing: vec!["所有权".into(), "借用".into()],
        },
    ];
    let md = review_summary_md(&rows, 3, "33");
    assert_eq!(
        md,
        "## 复习完成\n\n**正确 1/3** · 正确率 33%\n\n\n✓ **Q1** 【页表】\n\n✗ **Q2** 【看代码 let x = 1; 这段 输出什么】（40/100）\n\n   缺失: 所有权；借用"
    );
    let long = SummaryRow { correct: true, score: None, concept: None, question: "字".repeat(50), missing: vec![] };
    let md = review_summary_md(&[long], 1, "100");
    assert!(md.ends_with(&format!("【{}】", "字".repeat(40))));
}

#[test]
fn next_question_waits_and_counts_kinds() {
    assert_eq!(next_question(true, &[true], 5), None);
    assert_eq!(next_question(false, &[true, false, true], 3), None);
    assert_eq!(
        next_question(false, &[true, false, true], 5),
        Some(NextQuestion { index: 3, done_choice: 2, done_short: 1 })
    );
    assert_eq!(next_question(false, &[], 1), Some(NextQuestion { index: 0, done_choice: 0, done_short: 0 }));
}
