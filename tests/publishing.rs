use pim_docs::json::Json;
use pim_docs::publish::{
    build_web_url, interpret_search, interpret_write, read_u64, trim_trailing_slashes, Action, Answer,
    Call, ConfluenceConfig, DbConfluenceConfig, PageInfo, ParentRef, PublishError, PublishResult,
    PublishSession,
};
use pim_docs::service::{failure_status, ErrorResponse, Failure};

fn s(v: &str) -> Json {
    Json::Str(v.to_string())
}

fn obj(members: Vec<(&str, Json)>) -> Json {
    Json::Object(members.into_iter().map(|(k, v)| (k.to_string(), v)).collect())
}

fn config() -> ConfluenceConfig {
    ConfluenceConfig::from_db(DbConfluenceConfig {
        base_url: "https://wiki.example.com/".to_string(),
        username: "me".to_string(),
        api_token: "SECRET-REDACTED".to_string(),
        space_key: "DOC".to_string(),
        parent_page: String::new(),
    })
}

/// An in-memory space: pages with title, id, version.
struct FakeStore {
    pages: Vec<(String, String, u64)>,
    next_id: u64,
}

impl FakeStore {
    fn publish(&mut self, cfg: &ConfluenceConfig, title: &str, body: &str) -> Result<PublishResult, PublishError> {
        let mut session = PublishSession::under_configured_parent(cfg, title, body);
        let mut action = session.start();
        loop {
            action = match action {
                Action::Search { title, .. } => {
                    let found = self.pages.iter().find(|p| p.0 == title).map(|p| (p.1.clone(), p.2));
                    session.on_search(Ok(found))
                }
                Action::Create { .. } => {
                    self.next_id += 1;
                    let id = format!("page-{}", self.next_id);
                    self.pages.push((session.title.clone(), id.clone(), 1));
                    session.on_write(Ok(PageInfo { id, webui: None }))
                }
                Action::Update { page_id, version, .. } => {
                    let page = self.pages.iter_mut().find(|p| p.1 == page_id).unwrap();
                    page.2 = version;
                    session.on_write(Ok(PageInfo { id: page_id, webui: Some("/x".to_string()) }))
                }
                Action::Finish(r) => return Ok(r),
                Action::Fail(e) => return Err(e),
            }
        }
    }
}

#[test]
fn publishing_twice_updates_one_page() {
    let cfg = config();
    let mut store = FakeStore { pages: Vec::new(), next_id: 0 };
    let first = store.publish(&cfg, "Release notes", "a").unwrap();
    let second = store.publish(&cfg, "Release notes", "b").unwrap();
    assert_eq!(store.pages.len(), 1);
    assert_eq!(first.page_id, second.page_id);
    assert_eq!(first.version, 1);
    assert_eq!(second.version, 2);
    assert_eq!(first.web_url, "https://wiki.example.com/wiki/spaces/DOC/pages/page-1");
    assert_eq!(second.web_url, "https://wiki.example.com/wiki/x");
    let other = store.publish(&cfg, "Model", "c").unwrap();
    assert_ne!(other.page_id, first.page_id);
    assert_eq!(store.pages.len(), 2);
}

#[test]
fn search_action_carries_query() {
    let cfg = config();
    let session = PublishSession::new(&cfg, "T", "B", ParentRef::NoParent);
    match session.start() {
        Action::Search { url, query, title } => {
            assert_eq!(url, "https://wiki.example.com/wiki/rest/api/content");
            assert_eq!(title, "T");
            assert_eq!(
                query,
                vec![
                    ("title".to_string(), "T".to_string()),
                    ("spaceKey".to_string(), "DOC".to_string()),
                    ("expand".to_string(), "version".to_string())
                ]
            );
        }
        other => panic!("unexpected {:?}", other),
    }
}

#[test]
fn update_payload_raises_version() {
    let cfg = config();
    let mut session = PublishSession::new(&cfg, "T", "B", ParentRef::NoParent);
    let _ = session.start();
    match session.on_search(Ok(Some(("42".to_string(), 7)))) {
        Action::Update { url, payload, page_id, version } => {
            assert_eq!(url, "https://wiki.example.com/wiki/rest/api/content/42");
            assert_eq!(page_id, "42");
            assert_eq!(version, 8);
            assert_eq!(
                payload.to_json_text(),
                "{\"type\":\"page\",\"title\":\"T\",\"version\":{\"number\":8},\"body\":{\"storage\":{\"value\":\"B\",\"representation\":\"storage\"}}}"
            );
        }
        other => panic!("unexpected {:?}", other),
    }
}

#[test]
fn parent_by_title_is_resolved_first() {
    let mut cfg = config();
    cfg.parent_page = "Docs".to_string();
    let mut session = PublishSession::under_configured_parent(&cfg, "T", "B");
    let _ = session.start();
    match session.on_search(Ok(None)) {
        Action::Search { title, .. } => assert_eq!(title, "Docs"),
        other => panic!("unexpected {:?}", other),
    }
    match session.on_search(Ok(Some(("9".to_string(), 3)))) {
        Action::Create { payload, ancestor, .. } => {
            assert_eq!(ancestor, Some("9".to_string()));
            assert!(payload.to_json_text().ends_with(",\"ancestors\":[{\"id\":\"9\"}]}"));
        }
        other => panic!("unexpected {:?}", other),
    }
}

#[test]
fn missing_parent_fails() {
    let mut cfg = config();
    cfg.parent_page = "Docs".to_string();
    let mut session = PublishSession::under_configured_parent(&cfg, "T", "B");
    let _ = session.start();
    let _ = session.on_search(Ok(None));
    match session.on_search(Ok(None)) {
        Action::Fail(PublishError::ParentNotFound { parent, space }) => {
            assert_eq!(parent, "Docs");
            assert_eq!(space, "DOC");
        }
        other => panic!("unexpected {:?}", other),
    }
}

#[test]
fn version_at_maximum_fails() {
    let mut session = PublishSession::new(&config(), "T", "B", ParentRef::Id("1".to_string()));
    let _ = session.start();
    assert!(matches!(session.on_search(Ok(Some(("1".to_string(), u64::MAX)))), Action::Fail(PublishError::VersionOverflow)));
}

#[test]
fn answer_out_of_turn_fails() {
    let mut session = PublishSession::new(&config(), "T", "B", ParentRef::NoParent);
    assert!(matches!(
        session.on_write(Ok(PageInfo { id: "1".to_string(), webui: None })),
        Action::Fail(PublishError::UnexpectedAnswer)
    ));
}

#[test]
fn search_answers_are_read() {
    let not_found = Answer::Received { status: 404, text: String::new(), body: None };
    assert!(matches!(interpret_search(not_found), Ok(None)));
    let failed = Answer::Received { status: 500, text: "boom".to_string(), body: None };
    match interpret_search(failed) {
        Err(PublishError::Remote { call, status, body }) => {
            assert_eq!(call, Call::Search);
            assert_eq!(status, 500);
            assert_eq!(body, "boom");
        }
        other => panic!("unexpected {:?}", other),
    }
    let results = obj(vec![(
        "results",
        Json::Array(vec![
            obj(vec![("id", s("12")), ("version", obj(vec![("number", Json::Number("5".to_string()))]))]),
            obj(vec![("id", s("13"))]),
        ]),
    )]);
    let ok = Answer::Received { status: 200, text: String::new(), body: Some(results) };
    assert_eq!(interpret_search(ok).unwrap(), Some(("12".to_string(), 5)));
    let no_version = obj(vec![("results", Json::Array(vec![obj(vec![("id", s("12"))])]))]);
    let ok = Answer::Received { status: 200, text: String::new(), body: Some(no_version) };
    assert_eq!(interpret_search(ok).unwrap(), Some(("12".to_string(), 1)));
    let bad = obj(vec![("results", Json::Array(vec![obj(vec![("id", s("1"))]), obj(vec![])]))]);
    let ok = Answer::Received { status: 200, text: String::new(), body: Some(bad) };
    assert!(matches!(interpret_search(ok), Err(PublishError::Decode(Call::Search))));
    assert!(matches!(
        interpret_search(Answer::Unreachable("down".to_string())),
        Err(PublishError::Transport { call: Call::Search, .. })
    ));
}

#[test]
fn write_answers_are_read() {
    let body = obj(vec![("id", s("77")), ("_links", obj(vec![("webui", s("/spaces/DOC/pages/77"))]))]);
    let info = interpret_write(Answer::Received { status: 201, text: String::new(), body: Some(body) }, Call::Create).unwrap();
    assert_eq!(info.id, "77");
    assert_eq!(build_web_url("https://w.example/", "DOC", &info), "https://w.example/wiki/spaces/DOC/pages/77");
    let failed = interpret_write(Answer::Received { status: 409, text: "conflict".to_string(), body: None }, Call::Update);
    assert!(matches!(failed, Err(PublishError::Remote { call: Call::Update, status: 409, .. })));
    let bad = interpret_write(Answer::Received { status: 200, text: String::new(), body: Some(obj(vec![])) }, Call::Create);
    assert!(matches!(bad, Err(PublishError::Decode(Call::Create))));
}

#[test]
fn numbers_read_as_u64() {
    assert_eq!(read_u64(&Json::Number("42".to_string())), Some(42));
    assert_eq!(read_u64(&Json::Number("18446744073709551615".to_string())), Some(u64::MAX));
    assert_eq!(read_u64(&Json::Number("18446744073709551616".to_string())), None);
    assert_eq!(read_u64(&Json::Number("1.5".to_string())), None);
    assert_eq!(read_u64(&Json::Number("-1".to_string())), None);
    assert_eq!(read_u64(&s("1")), None);
}

#[test]
fn trailing_slashes_are_trimmed() {
    assert_eq!(trim_trailing_slashes("https://x//"), "https://x");
    assert_eq!(trim_trailing_slashes("/"), "");
    assert_eq!(trim_trailing_slashes("a/b"), "a/b");
}

#[test]
fn config_takes_user_name_as_email() {
    let cfg = config();
    assert_eq!(cfg.email, "me");
    assert_eq!(cfg.space_key, "DOC");
    let e = ErrorResponse::new("bad".to_string());
    assert_eq!(e.status, "error");
    assert_eq!(e.message, "bad");
}

#[test]
fn failures_map_to_statuses() {
    assert_eq!(failure_status(Failure::NotFound), 404);
    assert_eq!(failure_status(Failure::Malformed), 422);
    assert_eq!(failure_status(Failure::ConfigUnavailable), 500);
    assert_eq!(failure_status(Failure::PublishFailed), 500);
}
