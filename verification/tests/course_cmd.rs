use studypilot::course_cmd::{parse_course_action, parse_review_action, CourseAction};

fn known() -> Vec<String> {
    vec!["rust".into(), "csapp".into()]
}

fn review_known() -> Vec<String> {
    vec!["rust".into(), "程序设计训练（Rust 语言）".into()]
}

#[test]
fn empty_or_list_flag_lists_all() {
    assert_eq!(parse_course_action("", &known()), CourseAction::List);
    assert_eq!(parse_course_action("   ", &known()), CourseAction::List);
    assert_eq!(parse_course_action("-list", &known()), CourseAction::List);
}

#[test]
fn switches_to_known_or_all() {
    assert_eq!(
        parse_course_action("rust", &known()),
        CourseAction::Switch("rust".into())
    );
    assert_eq!(
        parse_course_action("all", &known()),
        CourseAction::Switch("all".into())
    );
    assert_eq!(
        parse_course_action(" csapp ", &known()),
        CourseAction::Switch("csapp".into())
    );
}

#[test]
fn creates_single_word_course() {
    assert_eq!(
        parse_course_action("-new ml", &known()),
        CourseAction::Create("ml".into())
    );
    assert_eq!(
        parse_course_action("-new machine-learning", &known()),
        CourseAction::Create("machine-learning".into())
    );
}

#[test]
fn multi_word_names_are_accepted() {
    let mut k = known();
    k.push("程序设计训练（Rust 语言）".into());
    assert_eq!(
        parse_course_action("程序设计训练（Rust 语言）", &k),
        CourseAction::Switch("程序设计训练（Rust 语言）".into())
    );
    assert_eq!(
        parse_course_action("-new machine learning", &known()),
        CourseAction::Create("machine learning".into())
    );
    assert_eq!(
        parse_course_action("-delete 程序设计训练（Rust 语言）", &k),
        CourseAction::Delete("程序设计训练（Rust 语言）".into())
    );
    match parse_course_action("程序设计训练 Rust", &k) {
        CourseAction::Invalid(msg) => assert!(msg.contains("未知课程"), "{msg}"),
        other => panic!("应为 Invalid，实际 {other:?}"),
    }
}

#[test]
fn bare_flags_are_usage_errors() {
    assert!(matches!(
        parse_course_action("-new", &known()),
        CourseAction::Invalid(_)
    ));
    assert!(matches!(
        parse_course_action("-delete", &known()),
        CourseAction::Invalid(_)
    ));
}

#[test]
fn delete_validates_target() {
    assert_eq!(
        parse_course_action("-delete rust", &known()),
        CourseAction::Delete("rust".into())
    );
    match parse_course_action("-delete all", &known()) {
        CourseAction::Invalid(msg) => assert!(msg.contains("不能删除"), "{msg}"),
        other => panic!("应为 Invalid，实际 {other:?}"),
    }
    match parse_course_action("-delete os", &known()) {
        CourseAction::Invalid(msg) => assert!(msg.contains("未知课程"), "{msg}"),
        other => panic!("应为 Invalid，实际 {other:?}"),
    }
}

#[test]
fn unknown_single_word_suggests_new() {
    match parse_course_action("os", &known()) {
        CourseAction::Invalid(msg) => {
            assert!(msg.contains("未知课程 `os`"), "{msg}");
            assert!(msg.contains("/course -new"), "{msg}");
        }
        other => panic!("应为 Invalid，实际 {other:?}"),
    }
}

#[test]
fn id_targeting_ignores_name_characters() {
    let mut k = known();
    k.push("<名> rust".into());
    assert_eq!(
        parse_course_action("--id 1", &k),
        CourseAction::SwitchById(1)
    );
    assert_eq!(
        parse_course_action("-delete --id 1", &k),
        CourseAction::DeleteById(1)
    );
    assert!(matches!(
        parse_course_action("-delete --id 0", &k),
        CourseAction::Invalid(_)
    ));
}

#[test]
fn placeholder_tokens_are_stripped() {
    assert_eq!(
        parse_course_action("-new <名> rust", &known()),
        CourseAction::Create("rust".into())
    );
    assert_eq!(
        parse_course_action("-delete <名> rust", &known()),
        CourseAction::Delete("rust".into())
    );
    assert_eq!(
        parse_course_action("<课程> rust", &known()),
        CourseAction::Switch("rust".into())
    );
    assert!(matches!(
        parse_course_action("<课程> 不存在", &known()),
        CourseAction::Invalid(_)
    ));
}

#[test]
fn single_word_course_and_concept() {
    let s = parse_review_action("rust ownership --n 3", &review_known()).unwrap();
    assert_eq!(s.course, "rust");
    assert_eq!(s.scope, "ownership");
    assert_eq!(s.n, 3);
}

#[test]
fn multi_word_course_consumes_full_name() {
    let s = parse_review_action("程序设计训练（Rust 语言） --n 5", &review_known()).unwrap();
    assert_eq!(s.course, "程序设计训练（Rust 语言）");
    assert_eq!(s.scope, "程序设计训练（Rust 语言）");
}

#[test]
fn multi_word_course_with_concept() {
    let s = parse_review_action("程序设计训练（Rust 语言） ownership", &review_known()).unwrap();
    assert_eq!(s.course, "程序设计训练（Rust 语言）");
    assert_eq!(s.scope, "ownership");
    assert_eq!(s.n, 5);
}

#[test]
fn longest_prefix_wins() {
    let k = vec!["os".into(), "os 内存".into()];
    let s = parse_review_action("os 内存 置换", &k).unwrap();
    assert_eq!(s.course, "os 内存");
    assert_eq!(s.scope, "置换");
}

#[test]
fn flag_order_is_flexible() {
    let s = parse_review_action("--n 7 rust", &review_known()).unwrap();
    assert_eq!(s.course, "rust");
    assert_eq!(s.n, 7);
}

#[test]
fn empty_arg_is_usage_error() {
    assert!(parse_review_action("", &review_known()).is_err());
    assert!(parse_review_action("--n 5", &review_known()).is_err());
}

#[test]
fn unknown_course_reports_available() {
    let e = parse_review_action("不存在的课", &review_known()).unwrap_err();
    assert!(e.contains("不存在"), "{e}");
    assert!(e.contains("程序设计训练"), "{e}");
}

/// Exact texts of the usage errors and the listing of available courses.
#[test]
fn course_error_texts_are_exact() {
    assert_eq!(
        parse_course_action("<x>", &known()),
        CourseAction::Invalid("用法: /course [-list | <课程|all> | -new <名> | -delete <名>]".into())
    );
    assert_eq!(
        parse_course_action("-new", &known()),
        CourseAction::Invalid("用法: /course -new <课程名>".into())
    );
    assert_eq!(
        parse_course_action("--id x7", &known()),
        CourseAction::Invalid("非法课程 id `x7`".into())
    );
    assert_eq!(
        parse_course_action("os", &known()),
        CourseAction::Invalid("未知课程 `os`。可用: all, rust, csapp，或 /course -new <名> 新建".into())
    );
    assert_eq!(
        parse_course_action("-delete all", &known()),
        CourseAction::Invalid("all 是全局分区，不能删除".into())
    );
    assert_eq!(
        parse_course_action("--id 9223372036854775807", &known()),
        CourseAction::SwitchById(i64::MAX)
    );
    assert!(matches!(
        parse_course_action("--id 9223372036854775808", &known()),
        CourseAction::Invalid(_)
    ));
}

/// Invalid counts keep the default; a trailing `--n` is ignored; other flags are dropped.
#[test]
fn review_count_edge_cases() {
    let s = parse_review_action("rust --n 0", &review_known()).unwrap();
    assert_eq!(s.n, 5);
    let s = parse_review_action("rust --n x 借用", &review_known()).unwrap();
    assert_eq!((s.n, s.scope.as_str()), (5, "借用"));
    let s = parse_review_action("rust --n", &review_known()).unwrap();
    assert_eq!((s.n, s.scope.as_str()), (5, "rust"));
    let s = parse_review_action("rust --deep 借用 --n +12", &review_known()).unwrap();
    assert_eq!((s.n, s.scope.as_str()), (12, "借用"));
    assert_eq!(
        parse_review_action("--n 5", &review_known()),
        Err("用法: /review <课程名> [概念关键词] [--n 数量]".to_string())
    );
    assert_eq!(
        parse_review_action("os", &review_known()),
        Err("课程 `os` 不存在。可用: all, rust, 程序设计训练（Rust 语言）".to_string())
    );
}

#[test]
fn stripping_placeholders_twice_is_stripping_once() {
    for arg in ["<标题>  my   rust ", "-delete <名> rust", "a <b c", "<x>", "", "  \t x\ty  <z> "] {
        let once = studypilot::course_cmd::strip_placeholder_tokens(arg);
        assert_eq!(studypilot::course_cmd::strip_placeholder_tokens(&once), once);
    }
}
