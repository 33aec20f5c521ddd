use studypilot::course_cmd::strip_placeholder_tokens;
use studypilot::refs::{
    citations_from, extract_citations, extract_ref_numbers, search_results, ChatMessage, MessageRole,
    SearchHit,
};

#[test]
fn strips_placeholder_tokens_only() {
    assert_eq!(strip_placeholder_tokens("<标题> my rust"), "my rust");
    assert_eq!(strip_placeholder_tokens("rust"), "rust");
    assert_eq!(strip_placeholder_tokens("-delete <名> rust"), "-delete rust");
    assert_eq!(strip_placeholder_tokens("<标题>"), "");
    assert_eq!(strip_placeholder_tokens("a <b c"), "a <b c");
}

#[test]
fn ref_numbers_sorted_unique_positive() {
    assert_eq!(extract_ref_numbers("见 [3] 与 [1]，又见 [3]。"), vec![1, 3]);
    assert_eq!(extract_ref_numbers("[0] [] [a] [12"), Vec::<usize>::new());
    assert_eq!(extract_ref_numbers("[[2]] x[10]y"), vec![2, 10]);
    assert_eq!(extract_ref_numbers("[007]"), vec![7]);
    assert_eq!(extract_ref_numbers("[99999999999999999999999]"), Vec::<usize>::new());
}

fn tool(content: &str) -> ChatMessage {
    ChatMessage { role: MessageRole::Tool, content: Some(content.into()) }
}

#[test]
fn citations_follow_latest_search() {
    let msgs = vec![
        ChatMessage { role: MessageRole::User, content: Some("{\"results\":[{\"id\":1,\"title\":\"X\",\"section\":\"Y\"}]}".into()) },
        tool("{\"results\":[{\"id\":1,\"title\":\"所有权\",\"section\":\"移动\"},{\"id\":2,\"title\":\"借用\",\"section\":\"规则\"}]}"),
        tool("not json"),
        tool("{\"results\":[{\"id\":2,\"title\":\"借用\",\"section\":\"可变\"},{\"id\":0,\"title\":\"z\"}]}"),
    ];
    let c = extract_citations(&msgs, "答案 [2][1][5]");
    assert_eq!(
        c,
        vec![(1, "所有权 · 移动".to_string()), (2, "借用 · 可变".to_string())]
    );
}

#[test]
fn citations_missing_fields_are_blank() {
    let msgs = vec![tool("{\"results\":[{\"id\":4}]}")];
    assert_eq!(extract_citations(&msgs, "[4]"), vec![(4, " · ".to_string())]);
    assert!(extract_citations(&msgs, "no refs").is_empty());
}

#[test]
fn citations_from_parsed_searches() {
    let hit = |id: Option<u64>, t: &str, sec: Option<&str>| SearchHit {
        id,
        title: Some(t.to_string()),
        section: sec.map(|x| x.to_string()),
    };
    let parsed = vec![
        Some(vec![hit(Some(1), "Rust", Some("借用")), hit(Some(3), "OS", None), hit(None, "x", None)]),
        None,
        Some(vec![hit(Some(3), "OS 2", Some("页表")), hit(Some(0), "zero", None)]),
    ];
    let c = citations_from(&parsed, "见 [3] 与 [1]，以及 [9] [0]");
    assert_eq!(c, vec![(1, "Rust · 借用".to_string()), (3, "OS 2 · 页表".to_string())]);
    assert!(citations_from(&[], "[1]").is_empty());
}

#[test]
fn search_results_parse_tool_messages_only() {
    let msgs = vec![
        ChatMessage { role: MessageRole::User, content: Some(r#"{"results":[{"id":1}]}"#.to_string()) },
        ChatMessage { role: MessageRole::Tool, content: Some(r#"{"results":[{"id":2,"title":"T"}]}"#.to_string()) },
        ChatMessage { role: MessageRole::Tool, content: Some("not json".to_string()) },
        ChatMessage { role: MessageRole::Tool, content: None },
    ];
    let p = search_results(&msgs);
    assert_eq!(p.len(), 4);
    assert!(p[0].is_none());
    let hits = p[1].as_ref().unwrap();
    assert_eq!(hits.len(), 1);
    assert_eq!(hits[0].id, Some(2));
    assert_eq!(hits[0].title.as_deref(), Some("T"));
    assert_eq!(hits[0].section, None);
    assert!(p[2].is_none());
    assert!(p[3].is_none());
}
