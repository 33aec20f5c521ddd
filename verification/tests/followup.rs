use studypilot::followup::{followup_message, option_letter, tutor_system_prompt};

#[test]
fn option_letters_start_at_a() {
    assert_eq!(option_letter(0), 'A');
    assert_eq!(option_letter(3), 'D');
}

#[test]
fn choice_question_message_lists_everything() {
    let options = vec!["栈".to_string(), "堆".to_string()];
    let missing = vec!["所有权".to_string(), "生命周期".to_string()];
    let history = vec![("为什么?".to_string(), "因为借用。".to_string())];
    let m = followup_message(
        "Box 分配在哪里？",
        &options,
        Some('B'),
        Some('A'),
        false,
        &Some("Box 指向堆内存".to_string()),
        &missing,
        &history,
        "那 Vec 呢？",
    );
    let expected = "题目：Box 分配在哪里？\n  A. 栈\n  B. 堆\n正确答案：B\n学生选择：A\n本题判定：答错\n解析：Box 指向堆内存\n缺失要点：所有权；生命周期\n\n学生此前追问：为什么?\n导师此前回答：因为借用。\n\n学生追问：那 Vec 呢？\n\n（回答前先用 search_notes 查笔记是否覆盖该知识点：查到的内容按笔记回答并标明出处；笔记没覆盖的部分用你的知识补充并明示「笔记外补充」。）";
    assert_eq!(m, expected);
}

#[test]
fn short_answer_message_omits_absent_parts() {
    let m = followup_message("什么是页表？", &[], None, None, true, &None, &[], &[], "多级页表呢");
    assert!(m.starts_with("题目：什么是页表？\n本题判定：答对\n\n学生追问：多级页表呢\n\n（回答前"));
}

#[test]
fn tutor_prompt_names_course_and_choices() {
    let p = tutor_system_prompt("rust", &[(1, "rust".to_string()), (2, "os".to_string())]);
    assert!(p.starts_with("你是一名课程学习导师。当前课程: rust。可切换: all, rust, os。\n\n目标：帮助学生理解知识，而非总结笔记。"));
    assert!(p.ends_with("直接回答，不必检索。"));
    assert!(tutor_system_prompt("all", &[]).starts_with("你是一名课程学习导师。当前课程: all。可切换: all。"));
}
