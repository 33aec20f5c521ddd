use studypilot::events::Entry;
use studypilot::partitions::Partitions;

fn v(xs: &[&str]) -> Vec<String> {
    xs.iter().map(|s| s.to_string()).collect()
}

#[test]
fn partition_isolates_entries_between_courses() {
    // A partition here: the chat stream and the session's spending.
    let mut p: Partitions<(Vec<Entry>, f64)> = Partitions::new();
    let mut entries = vec![Entry::User("rust 的聊天".into())];
    let mut session_cost = 3.5;
    // rust → csapp: csapp does not see rust's chat, and spends on its own.
    let (e, c) = p.swap("rust".into(), (entries, session_cost), "csapp", (Vec::new(), 0.0));
    entries = e;
    session_cost = c;
    assert!(entries.iter().all(|e| !matches!(e, Entry::User(m) if m.contains("rust"))));
    assert_eq!(session_cost, 0.0);
    entries.push(Entry::User("csapp 的聊天".into()));
    session_cost = 1.0;
    // csapp → rust: rust's chat and spending come back, without csapp's.
    let (e, c) = p.swap("csapp".into(), (entries, session_cost), "rust", (Vec::new(), 0.0));
    assert!(e.iter().any(|e| matches!(e, Entry::User(m) if m.contains("rust"))));
    assert!(e.iter().all(|e| !matches!(e, Entry::User(m) if m.contains("csapp"))));
    assert_eq!(c, 3.5);
}

#[test]
fn a_third_course_starts_fresh() {
    let mut p: Partitions<Vec<String>> = Partitions::new();
    let rust = p.swap("all".into(), v(&["全局消息"]), "rust", Vec::new());
    assert!(rust.is_empty());
    let all = p.swap("rust".into(), v(&["rust 消息"]), "all", Vec::new());
    assert_eq!(all, v(&["全局消息"]));
    let os = p.swap("all".into(), all, "os", v(&["新"]));
    assert_eq!(os, v(&["新"]));
    assert_eq!(p.swap("os".into(), os, "rust", Vec::new()), v(&["rust 消息"]));
}

#[test]
fn swapping_to_the_same_course_gives_it_back() {
    let mut p: Partitions<u32> = Partitions::new();
    assert_eq!(p.swap("a".into(), 7, "a", 0), 7);
    assert_eq!(p.swap("a".into(), 8, "b", 0), 0);
    assert_eq!(p.swap("b".into(), 1, "a", 0), 8);
}
