use studypilot::outline_render::{
    ref_number_of, render_outline_markdown, render_outline_tree, OutlineDoc, OutlineSectionDoc, RefValue,
};

fn section(title: Option<&str>, points: &[Option<&str>], refs: Vec<RefValue>) -> OutlineSectionDoc {
    OutlineSectionDoc {
        title: title.map(|t| t.to_string()),
        points: points.iter().map(|p| p.map(|x| x.to_string())).collect(),
        refs,
    }
}

#[test]
fn outline_with_footnotes() {
    let doc = OutlineDoc {
        sections: vec![
            section(Some("所有权"), &[Some("移动"), None], vec![RefValue::Num(2), RefValue::Text(" [1] ".into())]),
            section(None, &[], vec![RefValue::Text("x".into()), RefValue::Other, RefValue::Num(2), RefValue::Num(9)]),
        ],
    };
    let titles = vec![(10, "笔记一".to_string()), (11, "笔记二".to_string())];
    let md = render_outline_markdown(&doc, "rust", &titles);
    assert_eq!(
        md,
        "# rust 课程大纲\n\n## 所有权\n- 移动\n- \n\n> 参考: [2] [1]\n\n## (未命名)\n\n> 参考: [2] [9]\n\n## 引用来源\n\n- [1] 笔记一\n- [2] 笔记二\n- [9] 未知\n"
    );
}

#[test]
fn outline_without_refs_has_no_footnotes() {
    let doc = OutlineDoc { sections: vec![section(Some("A"), &[Some("p")], vec![])] };
    assert_eq!(render_outline_markdown(&doc, "c", &[]), "# c 课程大纲\n\n## A\n- p\n\n");
    assert_eq!(render_outline_markdown(&OutlineDoc { sections: vec![] }, "c", &[]), "# c 课程大纲\n\n");
}

#[test]
fn reference_strings_are_read_leniently() {
    assert_eq!(ref_number_of(&RefValue::Text("[[7]]".into())), Some(7));
    assert_eq!(ref_number_of(&RefValue::Text("+3".into())), Some(3));
    assert_eq!(ref_number_of(&RefValue::Text("3a".into())), None);
    assert_eq!(ref_number_of(&RefValue::Num(0)), Some(0));
    assert_eq!(ref_number_of(&RefValue::Other), None);
}

#[test]
fn source_zero_reads_as_the_first_title() {
    let doc = OutlineDoc { sections: vec![section(Some("A"), &[], vec![RefValue::Num(0)])] };
    let md = render_outline_markdown(&doc, "c", &[(1, "T".to_string())]);
    assert!(md.ends_with("## 引用来源\n\n- [0] T\n"));
}

#[test]
fn outline_tree_lines_and_sources() {
    let doc = OutlineDoc {
        sections: vec![
            section(Some("所有权"), &[Some("移动"), None], vec![RefValue::Num(2), RefValue::Text(" [1] ".into())]),
            section(None, &[], vec![RefValue::Other, RefValue::Num(2), RefValue::Num(9)]),
        ],
    };
    let titles = vec![(10, "Rust 笔记".to_string()), (11, "借用".to_string())];
    let lines = render_outline_tree(&doc, &titles);
    let expected = vec![
        "├ 所有权", "│  ├ 移动", "│  ├ ", "│  └ 引用: [2] [1]",
        "├ (未命名)", "│  └ 引用: [2] [9]",
        "", "引用来源:", "  [1] Rust 笔记", "  [2] 借用", "  [9] 未知",
    ];
    assert_eq!(lines, expected);
}

#[test]
fn outline_tree_without_refs_has_no_sources() {
    let doc = OutlineDoc { sections: vec![section(Some("A"), &[Some("p")], vec![])] };
    assert_eq!(render_outline_tree(&doc, &[]), vec!["├ A", "│  ├ p"]);
    assert!(render_outline_tree(&OutlineDoc { sections: vec![] }, &[]).is_empty());
}
