use studypilot::commands::{
    budget_arg, open_target, outline_request, review_request, route_command, split_command,
    BudgetArg, CommandRoute, OpenTarget, RenameRoute, ReviewRequest,
};
use studypilot::navigation::Workspace;

fn route(text: &str) -> CommandRoute {
    route_command(text, false, Workspace::Session)
}

#[test]
fn command_word_is_ascii_lowercased_and_arg_normalised() {
    let (cmd, arg) = split_command("/COURSE  <名>  csapp  ");
    assert_eq!(cmd, "/course");
    assert_eq!(arg, "csapp");
    let (cmd, arg) = split_command("");
    assert_eq!(cmd, "");
    assert_eq!(arg, "");
}

#[test]
fn known_commands_route_with_their_argument() {
    assert!(matches!(route("/help"), CommandRoute::Help));
    assert!(matches!(route("/Help extra"), CommandRoute::Help));
    assert!(matches!(route("/course  <课程>  os"), CommandRoute::Course(a) if a == "os"));
    assert!(matches!(route("/model   fast "), CommandRoute::Model(a) if a == "fast"));
    assert!(matches!(route("/test"), CommandRoute::Test));
    assert!(matches!(route("/new"), CommandRoute::New));
    assert!(matches!(route("/sessions"), CommandRoute::Sessions));
    assert!(matches!(route("/open 12"), CommandRoute::Open(a) if a == "12"));
    assert!(matches!(route("/export"), CommandRoute::Export));
    assert!(matches!(route("/load"), CommandRoute::LoadUsage));
    assert!(matches!(route("/load <文件> a b.json"), CommandRoute::Load(a) if a == "a b.json"));
    assert!(matches!(route("/import --dir notes"), CommandRoute::Import(a) if a == "--dir notes"));
    assert!(matches!(route("/delete --id 3"), CommandRoute::Delete(a) if a == "--id 3"));
    assert!(matches!(route("/move --id 3 --course os"), CommandRoute::Move(a) if a == "--id 3 --course os"));
    assert!(matches!(route("/budget reset"), CommandRoute::Budget(a) if a == "reset"));
    assert!(matches!(route("/notes"), CommandRoute::Notes));
    assert!(matches!(route("/outline os --regen"), CommandRoute::Outline(a) if a == "os --regen"));
    assert!(matches!(route("/search x"), CommandRoute::Search));
    assert!(matches!(route("/refresh-concepts"), CommandRoute::RefreshConcepts));
    assert!(matches!(route("/Review-Map"), CommandRoute::ReviewMap(a) if a.is_empty()));
    assert!(matches!(route("/review os 缓存 --n 3"), CommandRoute::Review(a) if a == "os 缓存 --n 3"));
    assert!(matches!(route("/nope x"), CommandRoute::Unknown(c) if c == "/nope"));
}

#[test]
fn session_switchers_are_refused_while_a_request_runs() {
    for text in ["/open 3", "/load x.json", "/new", "/rename t"] {
        assert!(matches!(route_command(text, true, Workspace::Session), CommandRoute::Busy));
    }
    assert!(matches!(route_command("/help", true, Workspace::Session), CommandRoute::Help));
    assert!(matches!(route_command("/new", false, Workspace::Session), CommandRoute::New));
}

#[test]
fn rename_depends_on_the_workspace() {
    let r = |ws, text| match route_command(text, false, ws) {
        CommandRoute::Rename(r) => r,
        _ => panic!("not a rename"),
    };
    assert!(matches!(r(Workspace::Course, "/rename"), RenameRoute::CourseWizard));
    assert!(matches!(r(Workspace::Session, "/rename <新标题>"), RenameRoute::SessionWizard));
    assert!(matches!(r(Workspace::Course, "/rename 操作系统 导论"), RenameRoute::Course(n) if n == "操作系统 导论"));
    assert!(matches!(r(Workspace::Session, "/rename day 1"), RenameRoute::Session(n) if n == "day 1"));
    assert!(matches!(r(Workspace::Home, "/rename x"), RenameRoute::NeedsScope));
}

#[test]
fn open_takes_an_id_or_opens_the_browser() {
    assert_eq!(open_target("12"), OpenTarget::Session(12));
    assert_eq!(open_target("  -3 "), OpenTarget::Session(-3));
    assert_eq!(open_target("   "), OpenTarget::Browser);
    assert_eq!(open_target("abc"), OpenTarget::Usage);
}

#[test]
fn budget_argument_kinds() {
    assert!(matches!(budget_arg(""), BudgetArg::Show));
    assert!(matches!(budget_arg("reset"), BudgetArg::Reset));
    assert!(matches!(budget_arg("12.5"), BudgetArg::Limit(a) if a == "12.5"));
}

fn courses() -> Vec<(i64, String)> {
    vec![(1, "csapp".to_string()), (2, "os".to_string())]
}

#[test]
fn outline_defaults_to_the_current_course_and_reads_flags() {
    let q = outline_request("", "csapp", &courses()).unwrap();
    assert_eq!((q.course_id, q.course.as_str(), q.regen, q.export), (1, "csapp", false, false));
    let q = outline_request("--regen os --export", "csapp", &courses()).unwrap();
    assert_eq!((q.course_id, q.course.as_str(), q.regen, q.export), (2, "os", true, true));
    let q = outline_request("--export", "os", &courses()).unwrap();
    assert_eq!((q.course_id, q.regen, q.export), (2, false, true));
}

#[test]
fn outline_refuses_all_and_unknown_courses() {
    assert_eq!(outline_request("all", "csapp", &courses()).unwrap_err(), "大纲需指定具体课程，不能为 all");
    assert_eq!(outline_request("--regen", "all", &courses()).unwrap_err(), "大纲需指定具体课程，不能为 all");
    assert_eq!(outline_request("nope", "csapp", &courses()).unwrap_err(), "课程 `nope` 不存在");
}

#[test]
fn review_request_decisions() {
    assert!(matches!(review_request("  ", true, true, &courses()), ReviewRequest::Wizard));
    assert!(matches!(review_request("os", true, false, &courses()),
        ReviewRequest::Refused(m) if m == "复习进行中，请先完成或 Esc 退出"));
    assert!(matches!(review_request("os", false, true, &courses()), ReviewRequest::OverBudget));
    match review_request("csapp 缓存 --n 3", false, false, &courses()) {
        ReviewRequest::Run { course_id, course, scope, n } => {
            assert_eq!(course_id, Some(1));
            assert_eq!(course, "csapp");
            assert_eq!(scope, "缓存");
            assert_eq!(n, 3);
        }
        other => panic!("unexpected {other:?}"),
    }
    match review_request("os", false, false, &courses()) {
        ReviewRequest::Run { course_id, scope, n, .. } => {
            assert_eq!(course_id, Some(2));
            assert_eq!(scope, "os");
            assert_eq!(n, 5);
        }
        other => panic!("unexpected {other:?}"),
    }
    assert!(matches!(review_request("nope", false, false, &courses()),
        ReviewRequest::Refused(m) if m.starts_with("课程 `nope` 不存在")));
}
